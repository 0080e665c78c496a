use crate::text::{spec_ascii_lower, str_eq_ignore_ascii_case};
use vstd::seq_lib::*;
use vstd::string::StringExecFns;
use vstd::prelude::*;

verus! {

/// Type of object in the schema catalog.
#[derive(Debug, Clone, Copy, PartialEq, Eq, Structural)]
pub enum ObjectType {
    Table,
    Index,
    View,
    Trigger,
}

/// The object type named by a string, compared without regard to
/// ASCII case.
pub open spec fn spec_object_type_of(s: Seq<char>) -> Option<ObjectType> {
    if spec_ascii_lower(s) == spec_ascii_lower("table"@) {
        Some(ObjectType::Table)
    } else if spec_ascii_lower(s) == spec_ascii_lower("index"@) {
        Some(ObjectType::Index)
    } else if spec_ascii_lower(s) == spec_ascii_lower("view"@) {
        Some(ObjectType::View)
    } else if spec_ascii_lower(s) == spec_ascii_lower("trigger"@) {
        Some(ObjectType::Trigger)
    } else {
        None
    }
}

impl ObjectType {
    /// Decode an object-type keyword, case-insensitively.
    pub fn from_str(s: &str) -> (r: Option<Self>)
        ensures
            r == spec_object_type_of(s@),
    {
        if str_eq_ignore_ascii_case(s, "table") {
            Some(ObjectType::Table)
        } else if str_eq_ignore_ascii_case(s, "index") {
            Some(ObjectType::Index)
        } else if str_eq_ignore_ascii_case(s, "view") {
            Some(ObjectType::View)
        } else if str_eq_ignore_ascii_case(s, "trigger") {
            Some(ObjectType::Trigger)
        } else {
            None
        }
    }
}

/// An entry from the schema catalog.
#[derive(Debug, Clone, PartialEq)]
pub struct SchemaEntry {
    /// Object type (table, index, view, trigger).
    pub object_type: ObjectType,
    /// Name of the object.
    pub name: String,
    /// Name of the table this object is associated with.
    pub table_name: String,
    /// Root page number for tables and indexes (0 for views and
    /// triggers).
    pub root_page: u32,
    /// SQL text that created this object.
    pub sql: Option<String>,
}

/// The mathematical shape of a [`SchemaEntry`].
pub struct SchemaEntryV {
    pub object_type: ObjectType,
    pub name: Seq<char>,
    pub table_name: Seq<char>,
    pub root_page: u32,
    pub sql: Option<Seq<char>>,
}

/// The text of an `Option<String>`, viewed.
pub open spec fn spec_sql_view(sql: &Option<String>) -> Option<Seq<char>> {
    match sql {
        Some(s) => Some(s@),
        None => None,
    }
}

impl View for SchemaEntry {
    type V = SchemaEntryV;

    open spec fn view(&self) -> SchemaEntryV {
        SchemaEntryV {
            object_type: self.object_type,
            name: self.name@,
            table_name: self.table_name@,
            root_page: self.root_page,
            sql: spec_sql_view(&self.sql),
        }
    }
}

impl DeepView for SchemaEntry {
    type V = SchemaEntryV;

    open spec fn deep_view(&self) -> SchemaEntryV {
        self.view()
    }
}

/// Copy a schema entry, field by field.
fn copy_entry(e: &SchemaEntry) -> (r: SchemaEntry)
    ensures
        r@ == e@,
{
    SchemaEntry {
        object_type: e.object_type,
        name: e.name.clone(),
        table_name: e.table_name.clone(),
        root_page: e.root_page,
        sql: match &e.sql {
            Some(s) => Some(s.clone()),
            None => None,
        },
    }
}

/// Complete database schema: the decoded catalog.
#[derive(Debug, Clone, PartialEq)]
pub struct Schema {
    /// All schema entries, in catalog order.
    pub entries: Vec<SchemaEntry>,
}

/// The mathematical shape of a [`Schema`].
pub struct SchemaV {
    pub entries: Seq<SchemaEntryV>,
}

impl View for Schema {
    type V = SchemaV;

    open spec fn view(&self) -> SchemaV {
        SchemaV { entries: self.entries.deep_view() }
    }
}

/// Whether an entry is a table entry.
pub open spec fn spec_is_table_entry(e: SchemaEntryV) -> bool {
    e.object_type == ObjectType::Table
}

/// Whether an entry is an index entry.
pub open spec fn spec_is_index_entry(e: SchemaEntryV) -> bool {
    e.object_type == ObjectType::Index
}

/// The first entry of `entries` of the given object type that
/// carries the given name.
pub open spec fn spec_find_entry(
    entries: Seq<SchemaEntryV>,
    object_type: ObjectType,
    name: Seq<char>,
) -> Option<SchemaEntryV>
    decreases entries.len(),
{
    if entries.len() == 0 {
        None
    } else if entries[0].object_type == object_type && entries[0].name == name {
        Some(entries[0])
    } else {
        spec_find_entry(entries.drop_first(), object_type, name)
    }
}

impl Schema {
    /// An empty schema.
    pub fn new() -> (r: Self)
        ensures
            r@.entries == Seq::<SchemaEntryV>::empty(),
    {
        let r = Schema { entries: Vec::new() };
        proof {
            assert(r@.entries =~= Seq::<SchemaEntryV>::empty());
        }
        r
    }

    /// All table entries, in catalog order.
    pub fn tables(&self) -> (r: Vec<SchemaEntry>)
        ensures
            r.deep_view() == self@.entries.filter(|e: SchemaEntryV| spec_is_table_entry(e)),
    {
        let mut out: Vec<SchemaEntry> = Vec::new();
        let mut i: usize = 0;
        proof {
            assert(self@.entries.take(0).filter(|e: SchemaEntryV| spec_is_table_entry(e)) =~= out.deep_view());
        }
        while i < self.entries.len()
            invariant
                i <= self.entries@.len(),
                self@.entries.len() == self.entries@.len(),
                out.deep_view() =~= self@.entries.take(i as int).filter(
                    |e: SchemaEntryV| spec_is_table_entry(e),
                ),
            decreases self.entries@.len() - i,
        {
            let ghost prefix = self@.entries.take(i as int);
            proof {
                assert(self@.entries.take(i as int + 1) =~= prefix + seq![self@.entries[i as int]]);
                reveal_with_fuel(Seq::<SchemaEntryV>::filter, 2);
                Seq::<SchemaEntryV>::filter_distributes_over_add(
                    prefix,
                    seq![self@.entries[i as int]],
                    |e: SchemaEntryV| spec_is_table_entry(e),
                );
            }
            let e = &self.entries[i];
            if matches!(e.object_type, ObjectType::Table) {
                let ghost prev = out.deep_view();
                out.push(copy_entry(e));
                proof {
                    assert(out.deep_view() =~= prev + seq![self@.entries[i as int]]);
                }
            }
            i = i + 1;
        }
        proof {
            assert(self@.entries.take(self@.entries.len() as int) =~= self@.entries);
        }
        out
    }

    /// All index entries, in catalog order.
    pub fn indexes(&self) -> (r: Vec<SchemaEntry>)
        ensures
            r.deep_view() == self@.entries.filter(|e: SchemaEntryV| spec_is_index_entry(e)),
    {
        let mut out: Vec<SchemaEntry> = Vec::new();
        let mut i: usize = 0;
        proof {
            assert(self@.entries.take(0).filter(|e: SchemaEntryV| spec_is_index_entry(e)) =~= out.deep_view());
        }
        while i < self.entries.len()
            invariant
                i <= self.entries@.len(),
                self@.entries.len() == self.entries@.len(),
                out.deep_view() =~= self@.entries.take(i as int).filter(
                    |e: SchemaEntryV| spec_is_index_entry(e),
                ),
            decreases self.entries@.len() - i,
        {
            let ghost prefix = self@.entries.take(i as int);
            proof {
                assert(self@.entries.take(i as int + 1) =~= prefix + seq![self@.entries[i as int]]);
                reveal_with_fuel(Seq::<SchemaEntryV>::filter, 2);
                Seq::<SchemaEntryV>::filter_distributes_over_add(
                    prefix,
                    seq![self@.entries[i as int]],
                    |e: SchemaEntryV| spec_is_index_entry(e),
                );
            }
            let e = &self.entries[i];
            if matches!(e.object_type, ObjectType::Index) {
                let ghost prev = out.deep_view();
                out.push(copy_entry(e));
                proof {
                    assert(out.deep_view() =~= prev + seq![self@.entries[i as int]]);
                }
            }
            i = i + 1;
        }
        proof {
            assert(self@.entries.take(self@.entries.len() as int) =~= self@.entries);
        }
        out
    }

    /// The first table entry with this name.
    pub fn get_table(&self, name: &str) -> (r: Option<SchemaEntry>)
        ensures
            match r {
                Some(e) => Some(e@) == spec_find_entry(self@.entries, ObjectType::Table, name@),
                None => spec_find_entry(self@.entries, ObjectType::Table, name@) is None,
            },
    {
        self.find_entry(ObjectType::Table, name)
    }

    /// The first index entry with this name.
    pub fn get_index(&self, name: &str) -> (r: Option<SchemaEntry>)
        ensures
            match r {
                Some(e) => Some(e@) == spec_find_entry(self@.entries, ObjectType::Index, name@),
                None => spec_find_entry(self@.entries, ObjectType::Index, name@) is None,
            },
    {
        self.find_entry(ObjectType::Index, name)
    }

    fn find_entry(&self, object_type: ObjectType, name: &str) -> (r: Option<SchemaEntry>)
        ensures
            match r {
                Some(e) => Some(e@) == spec_find_entry(self@.entries, object_type, name@),
                None => spec_find_entry(self@.entries, object_type, name@) is None,
            },
    {
        let name_string = String::from_str(name);
        let mut i: usize = 0;
        proof {
            assert(self@.entries.skip(0) =~= self@.entries);
        }
        while i < self.entries.len()
            invariant
                i <= self.entries@.len(),
                self@.entries.len() == self.entries@.len(),
                name_string@ == name@,
                spec_find_entry(self@.entries, object_type, name@) == spec_find_entry(
                    self@.entries.skip(i as int),
                    object_type,
                    name@,
                ),
            decreases self.entries@.len() - i,
        {
            proof {
                assert(self@.entries.skip(i as int)[0] == self@.entries[i as int]);
                assert(self@.entries.skip(i as int).drop_first() =~= self@.entries.skip(
                    i as int + 1,
                ));
            }
            let e = &self.entries[i];
            if e.object_type == object_type && e.name == name_string {
                return Some(copy_entry(e));
            }
            i = i + 1;
        }
        proof {
            assert(self@.entries.skip(self@.entries.len() as int) =~= Seq::<SchemaEntryV>::empty());
        }
        None
    }

    /// All index entries whose table name is `table_name`, in catalog
    /// order.
    pub fn indexes_for_table(&self, table_name: &str) -> (r: Vec<SchemaEntry>)
        ensures
            r.deep_view() == self@.entries.filter(
                |e: SchemaEntryV| spec_is_index_entry(e) && e.table_name == table_name@,
            ),
    {
        let name_string = String::from_str(table_name);
        let mut out: Vec<SchemaEntry> = Vec::new();
        let mut i: usize = 0;
        proof {
            assert(self@.entries.take(0).filter(
                |e: SchemaEntryV| spec_is_index_entry(e) && e.table_name == table_name@,
            ) =~= out.deep_view());
        }
        while i < self.entries.len()
            invariant
                i <= self.entries@.len(),
                self@.entries.len() == self.entries@.len(),
                name_string@ == table_name@,
                out.deep_view() =~= self@.entries.take(i as int).filter(
                    |e: SchemaEntryV| spec_is_index_entry(e) && e.table_name == table_name@,
                ),
            decreases self.entries@.len() - i,
        {
            let ghost prefix = self@.entries.take(i as int);
            proof {
                assert(self@.entries.take(i as int + 1) =~= prefix + seq![self@.entries[i as int]]);
                reveal_with_fuel(Seq::<SchemaEntryV>::filter, 2);
                Seq::<SchemaEntryV>::filter_distributes_over_add(
                    prefix,
                    seq![self@.entries[i as int]],
                    |e: SchemaEntryV| spec_is_index_entry(e) && e.table_name == table_name@,
                );
            }
            let e = &self.entries[i];
            if matches!(e.object_type, ObjectType::Index) && e.table_name == name_string {
                let ghost prev = out.deep_view();
                out.push(copy_entry(e));
                proof {
                    assert(out.deep_view() =~= prev + seq![self@.entries[i as int]]);
                }
            }
            i = i + 1;
        }
        proof {
            assert(self@.entries.take(self@.entries.len() as int) =~= self@.entries);
        }
        out
    }
}

} // verus!
