//! The symbol tables: string id to text, class object id to class name,
//! and class serial number to class name. They grow monotonically as
//! String and LoadClass records are decoded and never shrink.

use vstd::prelude::*;

use vstd::hash_map::HashMapWithView;

verus! {

/// The mathematical shape of the three tables: each a map to the text it
/// resolves to.
pub struct TablesView {
    pub strings: Map<u64, Seq<char>>,
    pub class_by_id: Map<u64, Seq<char>>,
    pub class_by_serial: Map<u32, Seq<char>>,
}

/// Tables with nothing recorded yet.
pub open spec fn empty_tables() -> TablesView {
    TablesView {
        strings: Map::empty(),
        class_by_id: Map::empty(),
        class_by_serial: Map::empty(),
    }
}

/// The name a LoadClass record resolves to: the interned string its
/// `class_name_id` names, or the sentinel literal `"unknown"` when that
/// id is absent — a sentinel, not an error.
pub open spec fn resolved_class_name(t: TablesView, class_name_id: u64) -> Seq<char> {
    if t.strings.contains_key(class_name_id) {
        t.strings[class_name_id]
    } else {
        "unknown"@
    }
}

/// The tables after a LoadClass record: both class tables gain the
/// resolved name; the string table is untouched.
pub open spec fn tables_after_load_class(
    t: TablesView,
    serial_number: u32,
    object_id: u64,
    class_name_id: u64,
) -> TablesView {
    TablesView {
        strings: t.strings,
        class_by_id: t.class_by_id.insert(object_id, resolved_class_name(t, class_name_id)),
        class_by_serial: t.class_by_serial.insert(
            serial_number,
            resolved_class_name(t, class_name_id),
        ),
    }
}

/// The character sequences a map of owned strings holds, keyed as it is.
spec fn string_views_u64(m: Map<u64, String>) -> Map<u64, Seq<char>> {
    Map::new(|k: u64| m.dom().contains(k), |k: u64| m[k]@)
}

/// The character sequences a map of owned strings holds, keyed as it is.
spec fn string_views_u32(m: Map<u32, String>) -> Map<u32, Seq<char>> {
    Map::new(|k: u32| m.dom().contains(k), |k: u32| m[k]@)
}

proof fn lemma_string_views_insert_u64(m: Map<u64, String>, k: u64, v: String)
    ensures
        string_views_u64(m.insert(k, v)) == string_views_u64(m).insert(k, v@),
{
    assert(string_views_u64(m.insert(k, v)) =~= string_views_u64(m).insert(k, v@));
}

proof fn lemma_string_views_insert_u32(m: Map<u32, String>, k: u32, v: String)
    ensures
        string_views_u32(m.insert(k, v)) == string_views_u32(m).insert(k, v@),
{
    assert(string_views_u32(m.insert(k, v)) =~= string_views_u32(m).insert(k, v@));
}

/// The two lookup tables for interned strings and loaded classes,
/// populated incrementally while records are decoded.
pub struct HprofResult {
    string_map: HashMapWithView<u64, String>,
    class_map_by_id: HashMapWithView<u64, String>,
    class_map_by_serial: HashMapWithView<u32, String>,
}

impl View for HprofResult {
    type V = TablesView;

    closed spec fn view(&self) -> TablesView {
        TablesView {
            strings: string_views_u64(self.string_map@),
            class_by_id: string_views_u64(self.class_map_by_id@),
            class_by_serial: string_views_u32(self.class_map_by_serial@),
        }
    }
}

impl HprofResult {
    /// Empty tables.
    pub fn new() -> (r: Self)
        ensures
            r@ == empty_tables(),
    {
        let r = Self {
            string_map: HashMapWithView::new(),
            class_map_by_id: HashMapWithView::new(),
            class_map_by_serial: HashMapWithView::new(),
        };
        proof {
            assert(string_views_u64(r.string_map@) =~= Map::<u64, Seq<char>>::empty());
            assert(string_views_u64(r.class_map_by_id@) =~= Map::<u64, Seq<char>>::empty());
            assert(string_views_u32(r.class_map_by_serial@) =~= Map::<u32, Seq<char>>::empty());
        }
        r
    }

    /// Records one interned string: the string table gains the text under
    /// its id; the class tables are untouched.
    pub fn add_string(&mut self, id: u64, content: String)
        ensures
            final(self)@.strings == old(self)@.strings.insert(id, content@),
            final(self)@.class_by_id == old(self)@.class_by_id,
            final(self)@.class_by_serial == old(self)@.class_by_serial,
    {
        proof {
            lemma_string_views_insert_u64(self.string_map@, id, content);
        }
        self.string_map.insert(id, content);
    }

    /// Records one loaded class: both class tables gain the name resolved
    /// through the string table, with the sentinel `"unknown"` — never an
    /// error — when the string id is absent.
    pub fn add_load_class(&mut self, serial_number: u32, object_id: u64, class_name_id: u64)
        ensures
            final(self)@ == tables_after_load_class(
                old(self)@,
                serial_number,
                object_id,
                class_name_id,
            ),
    {
        let name: String = match self.string_map.get(&class_name_id) {
            Some(s) => s.clone(),
            None => "unknown".to_owned(),
        };
        let name_again = name.clone();
        proof {
            lemma_string_views_insert_u64(self.class_map_by_id@, object_id, name);
        }
        self.class_map_by_id.insert(object_id, name);
        proof {
            lemma_string_views_insert_u32(self.class_map_by_serial@, serial_number, name_again);
        }
        self.class_map_by_serial.insert(serial_number, name_again);
    }

    /// The text an interned-string id resolves to, if that id has been
    /// recorded.
    pub fn string_by_id(&self, id: u64) -> (r: Option<&String>)
        ensures
            match r {
                Some(s) => self@.strings.contains_key(id) && s@ == self@.strings[id],
                None => !self@.strings.contains_key(id),
            },
    {
        self.string_map.get(&id)
    }

    /// The class name a class object id resolves to, if that class has
    /// been loaded.
    pub fn class_name_by_object_id(&self, object_id: u64) -> (r: Option<&String>)
        ensures
            match r {
                Some(s) => self@.class_by_id.contains_key(object_id) && s@ == self@.class_by_id[
                    object_id
                ],
                None => !self@.class_by_id.contains_key(object_id),
            },
    {
        self.class_map_by_id.get(&object_id)
    }

    /// The class name a class serial number resolves to, if that class
    /// has been loaded.
    pub fn class_name_by_serial(&self, serial_number: u32) -> (r: Option<&String>)
        ensures
            match r {
                Some(s) => self@.class_by_serial.contains_key(serial_number) && s@
                    == self@.class_by_serial[serial_number],
                None => !self@.class_by_serial.contains_key(serial_number),
            },
    {
        self.class_map_by_serial.get(&serial_number)
    }
}

impl Default for HprofResult {
    /// Empty tables.
    fn default() -> (r: Self)
        ensures
            r@ == empty_tables(),
    {
        Self::new()
    }
}

} // verus!
