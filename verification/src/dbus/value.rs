//! D-Bus values and the dictionaries of settings that are made of them.

use vstd::prelude::*;

use crate::text::same_text;

verus! {

/// A D-Bus value. Types that no setting is read from are not told apart.
#[derive(Debug, PartialEq, Eq)]
pub enum Value {
    U8(u8),
    Bool(bool),
    I32(i32),
    U32(u32),
    Str(String),
    Array(Vec<Value>),
    Structure(Vec<Value>),
    Dict(Vec<(Value, Value)>),
    Variant(Box<Value>),
    Other,
}

/// A value, with its texts and lists as sequences.
#[verifier::ext_equal]
pub enum ValueView {
    U8(u8),
    Bool(bool),
    I32(i32),
    U32(u32),
    Str(Seq<char>),
    Array(Seq<ValueView>),
    Structure(Seq<ValueView>),
    Dict(Seq<(ValueView, ValueView)>),
    Variant(Box<ValueView>),
    Other,
}

impl Value {
    pub open spec fn view(&self) -> ValueView
        decreases self,
    {
        match self {
            Value::U8(x) => ValueView::U8(*x),
            Value::Bool(x) => ValueView::Bool(*x),
            Value::I32(x) => ValueView::I32(*x),
            Value::U32(x) => ValueView::U32(*x),
            Value::Str(text) => ValueView::Str(text@),
            Value::Array(items) => ValueView::Array(
                Seq::new(
                    items@.len(),
                    |i: int|
                        if 0 <= i < items@.len() {
                            items@[i].view()
                        } else {
                            ValueView::Other
                        },
                ),
            ),
            Value::Structure(items) => ValueView::Structure(
                Seq::new(
                    items@.len(),
                    |i: int|
                        if 0 <= i < items@.len() {
                            items@[i].view()
                        } else {
                            ValueView::Other
                        },
                ),
            ),
            Value::Dict(entries) => ValueView::Dict(
                Seq::new(
                    entries@.len(),
                    |i: int|
                        if 0 <= i < entries@.len() {
                            (entries@[i].0.view(), entries@[i].1.view())
                        } else {
                            (ValueView::Other, ValueView::Other)
                        },
                ),
            ),
            Value::Variant(inner) => ValueView::Variant(Box::new(inner.view())),
            Value::Other => ValueView::Other,
        }
    }
}

/// The views of a list of values.
pub open spec fn value_views(items: Seq<Value>) -> Seq<ValueView> {
    items.map_values(|item: Value| item@)
}

/// The views of a list of pairs of values.
pub open spec fn pair_views(entries: Seq<(Value, Value)>) -> Seq<(ValueView, ValueView)> {
    entries.map_values(|entry: (Value, Value)| (entry.0@, entry.1@))
}

/// The view of an array is the array of the views.
pub proof fn lemma_array_view(items: Vec<Value>)
    ensures
        Value::Array(items)@ == ValueView::Array(value_views(items@)),
        Value::Structure(items)@ == ValueView::Structure(value_views(items@)),
{
    assert(Value::Array(items)@->Array_0 =~= value_views(items@));
    assert(Value::Structure(items)@->Structure_0 =~= value_views(items@));
}

/// The view of a dictionary is the dictionary of the views.
pub proof fn lemma_dict_view(entries: Vec<(Value, Value)>)
    ensures
        Value::Dict(entries)@ == ValueView::Dict(pair_views(entries@)),
{
    assert(Value::Dict(entries)@->Dict_0 =~= pair_views(entries@));
}

// --- Reading values -----------------------------------------------------------------------

/// What a variant holds, or the value itself.
pub open spec fn bare(value: ValueView) -> ValueView {
    match value {
        ValueView::Variant(inner) => *inner,
        _ => value,
    }
}

/// The text that a value is.
pub open spec fn text_in(value: ValueView) -> Option<Seq<char>> {
    match value {
        ValueView::Str(text) => Some(text),
        _ => None,
    }
}

/// The unsigned number that a value is.
pub open spec fn u32_in(value: ValueView) -> Option<u32> {
    match value {
        ValueView::U32(number) => Some(number),
        _ => None,
    }
}

/// The signed number that a value is.
pub open spec fn i32_in(value: ValueView) -> Option<i32> {
    match value {
        ValueView::I32(number) => Some(number),
        _ => None,
    }
}

/// The truth value that a value is.
pub open spec fn bool_in(value: ValueView) -> Option<bool> {
    match value {
        ValueView::Bool(truth) => Some(truth),
        _ => None,
    }
}

/// The octets that a value is an array of.
pub open spec fn octets_in(value: ValueView) -> Option<Seq<u8>> {
    match value {
        ValueView::Array(items) => if forall|i: int|
            0 <= i < items.len() ==> bare(#[trigger] items[i]) is U8 {
            Some(items.map_values(|item: ValueView| bare(item)->U8_0))
        } else {
            None
        },
        _ => None,
    }
}

/// The unsigned numbers that a value is an array of.
pub open spec fn numbers_in(value: ValueView) -> Option<Seq<u32>> {
    match value {
        ValueView::Array(items) => if forall|i: int|
            0 <= i < items.len() ==> bare(#[trigger] items[i]) is U32 {
            Some(items.map_values(|item: ValueView| bare(item)->U32_0))
        } else {
            None
        },
        _ => None,
    }
}

/// The lists of unsigned numbers that a value is an array of.
pub open spec fn number_lists_in(value: ValueView) -> Option<Seq<Seq<u32>>> {
    match value {
        ValueView::Array(items) => if forall|i: int|
            0 <= i < items.len() ==> numbers_in(bare(#[trigger] items[i])) is Some {
            Some(items.map_values(|item: ValueView| numbers_in(bare(item))->0))
        } else {
            None
        },
        _ => None,
    }
}

/// The texts that a value is an array of. They are not looked for in variants.
pub open spec fn texts_in(value: ValueView) -> Option<Seq<Seq<char>>> {
    match value {
        ValueView::Array(items) => if forall|i: int|
            0 <= i < items.len() ==> #[trigger] items[i] is Str {
            Some(items.map_values(|item: ValueView| item->Str_0))
        } else {
            None
        },
        _ => None,
    }
}

/// Two lists of octets, each with a number.
pub type OctetPair = (Seq<u8>, u32, Seq<u8>, u32);

/// The octets and numbers that a value is a structure of.
pub open spec fn octet_pair_in(value: ValueView) -> Option<OctetPair> {
    match value {
        ValueView::Structure(fields) => if fields.len() < 4 {
            None
        } else {
            match (
                octets_in(fields[0]),
                u32_in(fields[1]),
                octets_in(fields[2]),
                u32_in(fields[3]),
            ) {
                (Some(a), Some(b), Some(c), Some(d)) => Some((a, b, c, d)),
                _ => None,
            }
        },
        _ => None,
    }
}

/// The octets and numbers that a value is an array of structures of.
pub open spec fn octet_pairs_in(value: ValueView) -> Option<Seq<OctetPair>> {
    match value {
        ValueView::Array(items) => if forall|i: int|
            0 <= i < items.len() ==> octet_pair_in(bare(#[trigger] items[i])) is Some {
            Some(items.map_values(|item: ValueView| octet_pair_in(bare(item))->0))
        } else {
            None
        },
        _ => None,
    }
}

/// The views of a list of lists of numbers.
pub open spec fn list_views(lists: Seq<Vec<u32>>) -> Seq<Seq<u32>> {
    lists.map_values(|list: Vec<u32>| list@)
}

/// The view of two lists of octets, each with a number.
pub open spec fn pair_view(pair: (Vec<u8>, u32, Vec<u8>, u32)) -> OctetPair {
    (pair.0@, pair.1, pair.2@, pair.3)
}

/// The views of a list of such pairs.
pub open spec fn octet_pair_views(pairs: Seq<(Vec<u8>, u32, Vec<u8>, u32)>) -> Seq<OctetPair> {
    pairs.map_values(|pair: (Vec<u8>, u32, Vec<u8>, u32)| pair_view(pair))
}

/// Whether a value is a dictionary with text for keys.
pub open spec fn is_text_dict(value: ValueView) -> bool {
    value matches ValueView::Dict(entries) && forall|i: int|
        0 <= i < entries.len() ==> bare((#[trigger] entries[i]).0) is Str
}

/// The first value with a key in a dictionary.
pub open spec fn dict_value(entries: Seq<(ValueView, ValueView)>, key: Seq<char>) -> Option<ValueView>
    decreases entries.len(),
{
    if entries.len() == 0 {
        None
    } else if text_in(bare(entries[0].0)) == Some(key) {
        Some(bare(entries[0].1))
    } else {
        dict_value(entries.skip(1), key)
    }
}

/// What a value is as an array of dictionaries with text for keys.
pub open spec fn dicts_in(value: ValueView) -> Option<Seq<Seq<(ValueView, ValueView)>>> {
    match value {
        ValueView::Array(items) => if forall|i: int|
            0 <= i < items.len() ==> is_text_dict(bare(#[trigger] items[i])) {
            Some(items.map_values(|item: ValueView| bare(item)->Dict_0))
        } else {
            None
        },
        _ => None,
    }
}

impl Value {
    /// What a variant holds, or the value itself.
    pub fn bare(&self) -> (r: &Value)
        ensures
            r@ == bare(self@),
    {
        match self {
            Value::Variant(inner) => &**inner,
            _ => self,
        }
    }

    /// The text that the value is.
    pub fn text(&self) -> (r: Option<&str>)
        ensures
            crate::text::str_view(r) == text_in(self@),
    {
        match self {
            Value::Str(text) => Some(text.as_str()),
            _ => None,
        }
    }

    /// The unsigned number that the value is.
    pub fn u32(&self) -> (r: Option<u32>)
        ensures
            r == u32_in(self@),
    {
        match self {
            Value::U32(number) => Some(*number),
            _ => None,
        }
    }

    /// The signed number that the value is.
    pub fn i32(&self) -> (r: Option<i32>)
        ensures
            r == i32_in(self@),
    {
        match self {
            Value::I32(number) => Some(*number),
            _ => None,
        }
    }

    /// The truth value that the value is.
    pub fn truth(&self) -> (r: Option<bool>)
        ensures
            r == bool_in(self@),
    {
        match self {
            Value::Bool(truth) => Some(*truth),
            _ => None,
        }
    }

    /// The octets that the value is an array of.
    pub fn octets(&self) -> (r: Option<Vec<u8>>)
        ensures
            match r {
                Some(octets) => octets_in(self@) == Some(octets@),
                None => octets_in(self@) is None,
            },
    {
        let items: &Vec<Value> = match self {
            Value::Array(items) => items,
            _ => {
                return None;
            },
        };
        let ghost views = value_views(items@);
        proof {
            lemma_array_view(*items);
        }
        let mut r: Vec<u8> = Vec::new();
        let mut i: usize = 0;
        while i < items.len()
            invariant
                i <= items@.len(),
                views == value_views(items@),
                self@ == ValueView::Array(views),
                forall|j: int| 0 <= j < i ==> bare(#[trigger] views[j]) is U8,
                r@.len() == i,
                forall|j: int| 0 <= j < i ==> #[trigger] r@[j] == bare(views[j])->U8_0,
            decreases items@.len() - i,
        {
            assert(views[i as int] == items@[i as int]@);
            match items[i].bare() {
                Value::U8(octet) => {
                    r.push(*octet);
                },
                _ => {
                    return None;
                },
            }
            i = i + 1;
        }
        assert(r@ =~= octets_in(self@)->0);
        Some(r)
    }

    /// The unsigned numbers that the value is an array of.
    pub fn numbers(&self) -> (r: Option<Vec<u32>>)
        ensures
            match r {
                Some(numbers) => numbers_in(self@) == Some(numbers@),
                None => numbers_in(self@) is None,
            },
    {
        let items: &Vec<Value> = match self {
            Value::Array(items) => items,
            _ => {
                return None;
            },
        };
        let ghost views = value_views(items@);
        proof {
            lemma_array_view(*items);
        }
        let mut r: Vec<u32> = Vec::new();
        let mut i: usize = 0;
        while i < items.len()
            invariant
                i <= items@.len(),
                views == value_views(items@),
                self@ == ValueView::Array(views),
                forall|j: int| 0 <= j < i ==> bare(#[trigger] views[j]) is U32,
                r@.len() == i,
                forall|j: int| 0 <= j < i ==> #[trigger] r@[j] == bare(views[j])->U32_0,
            decreases items@.len() - i,
        {
            assert(views[i as int] == items@[i as int]@);
            match items[i].bare() {
                Value::U32(number) => {
                    r.push(*number);
                },
                _ => {
                    return None;
                },
            }
            i = i + 1;
        }
        assert(r@ =~= numbers_in(self@)->0);
        Some(r)
    }

    /// The texts that the value is an array of.
    pub fn texts(&self) -> (r: Option<Vec<String>>)
        ensures
            match r {
                Some(texts) => texts_in(self@) == Some(crate::text::string_views(texts@)),
                None => texts_in(self@) is None,
            },
    {
        let items: &Vec<Value> = match self {
            Value::Array(items) => items,
            _ => {
                return None;
            },
        };
        let ghost views = value_views(items@);
        proof {
            lemma_array_view(*items);
        }
        let mut r: Vec<String> = Vec::new();
        let mut i: usize = 0;
        while i < items.len()
            invariant
                i <= items@.len(),
                views == value_views(items@),
                self@ == ValueView::Array(views),
                forall|j: int| 0 <= j < i ==> #[trigger] views[j] is Str,
                r@.len() == i,
                forall|j: int| 0 <= j < i ==> (#[trigger] r@[j])@ == views[j]->Str_0,
            decreases items@.len() - i,
        {
            assert(views[i as int] == items@[i as int]@);
            match &items[i] {
                Value::Str(text) => {
                    r.push(text.clone());
                },
                _ => {
                    return None;
                },
            }
            i = i + 1;
        }
        assert(crate::text::string_views(r@) =~= texts_in(self@)->0);
        Some(r)
    }

    /// The lists of unsigned numbers that the value is an array of.
    pub fn number_lists(&self) -> (r: Option<Vec<Vec<u32>>>)
        ensures
            match r {
                Some(lists) => number_lists_in(self@) == Some(list_views(lists@)),
                None => number_lists_in(self@) is None,
            },
    {
        let items: &Vec<Value> = match self {
            Value::Array(items) => items,
            _ => {
                return None;
            },
        };
        let ghost views = value_views(items@);
        proof {
            lemma_array_view(*items);
        }
        let mut r: Vec<Vec<u32>> = Vec::new();
        let mut i: usize = 0;
        while i < items.len()
            invariant
                i <= items@.len(),
                views == value_views(items@),
                self@ == ValueView::Array(views),
                forall|j: int| 0 <= j < i ==> numbers_in(bare(#[trigger] views[j])) is Some,
                r@.len() == i,
                forall|j: int| 0 <= j < i ==> (#[trigger] r@[j])@ == numbers_in(bare(views[j]))->0,
            decreases items@.len() - i,
        {
            assert(views[i as int] == items@[i as int]@);
            match items[i].bare().numbers() {
                Some(numbers) => {
                    r.push(numbers);
                },
                None => {
                    return None;
                },
            }
            i = i + 1;
        }
        assert(list_views(r@) =~= number_lists_in(self@)->0);
        Some(r)
    }

    /// The octets and numbers that the value is a structure of.
    fn octet_pair(&self) -> (r: Option<(Vec<u8>, u32, Vec<u8>, u32)>)
        ensures
            match r {
                Some(pair) => octet_pair_in(self@) == Some(pair_view(pair)),
                None => octet_pair_in(self@) is None,
            },
    {
        let fields: &Vec<Value> = match self {
            Value::Structure(fields) => fields,
            _ => {
                return None;
            },
        };
        proof {
            lemma_array_view(*fields);
        }
        if fields.len() < 4 {
            return None;
        }
        match (fields[0].octets(), fields[1].u32(), fields[2].octets(), fields[3].u32()) {
            (Some(a), Some(b), Some(c), Some(d)) => Some((a, b, c, d)),
            _ => None,
        }
    }

    /// The octets and numbers that the value is an array of structures of.
    pub fn octet_pairs(&self) -> (r: Option<Vec<(Vec<u8>, u32, Vec<u8>, u32)>>)
        ensures
            match r {
                Some(pairs) => octet_pairs_in(self@) == Some(octet_pair_views(pairs@)),
                None => octet_pairs_in(self@) is None,
            },
    {
        let items: &Vec<Value> = match self {
            Value::Array(items) => items,
            _ => {
                return None;
            },
        };
        let ghost views = value_views(items@);
        proof {
            lemma_array_view(*items);
        }
        let mut r: Vec<(Vec<u8>, u32, Vec<u8>, u32)> = Vec::new();
        let mut i: usize = 0;
        while i < items.len()
            invariant
                i <= items@.len(),
                views == value_views(items@),
                self@ == ValueView::Array(views),
                forall|j: int| 0 <= j < i ==> octet_pair_in(bare(#[trigger] views[j])) is Some,
                r@.len() == i,
                forall|j: int|
                    0 <= j < i ==> pair_view(#[trigger] r@[j]) == octet_pair_in(bare(views[j]))->0,
            decreases items@.len() - i,
        {
            assert(views[i as int] == items@[i as int]@);
            match items[i].bare().octet_pair() {
                Some(pair) => {
                    r.push(pair);
                },
                None => {
                    return None;
                },
            }
            i = i + 1;
        }
        assert(octet_pair_views(r@) =~= octet_pairs_in(self@)->0);
        Some(r)
    }

    /// Whether the value is a dictionary with text for keys.
    fn has_text_keys(&self) -> (r: bool)
        ensures
            r == is_text_dict(self@),
    {
        let entries: &Vec<(Value, Value)> = match self {
            Value::Dict(entries) => entries,
            _ => {
                return false;
            },
        };
        let ghost views = pair_views(entries@);
        proof {
            lemma_dict_view(*entries);
        }
        let mut i: usize = 0;
        while i < entries.len()
            invariant
                i <= entries@.len(),
                views == pair_views(entries@),
                self@ == ValueView::Dict(views),
                forall|j: int| 0 <= j < i ==> bare((#[trigger] views[j]).0) is Str,
            decreases entries@.len() - i,
        {
            assert(views[i as int].0 == entries@[i as int].0@);
            match entries[i].0.bare() {
                Value::Str(_) => {},
                _ => {
                    return false;
                },
            }
            i = i + 1;
        }
        true
    }

    /// The entries of the first of the dictionaries that the value is an array
    /// of: nothing if it is none, and nothing within if there are none.
    pub fn first_dict(&self) -> (r: Option<Option<&Vec<(Value, Value)>>>)
        ensures
            match r {
                None => dicts_in(self@) is None,
                Some(None) => dicts_in(self@) matches Some(dicts) && dicts.len() == 0,
                Some(Some(entries)) => dicts_in(self@) matches Some(dicts) && dicts.len() > 0
                    && dicts[0] == pair_views(entries@),
            },
    {
        let items: &Vec<Value> = match self {
            Value::Array(items) => items,
            _ => {
                return None;
            },
        };
        let ghost views = value_views(items@);
        proof {
            lemma_array_view(*items);
        }
        let mut i: usize = 0;
        while i < items.len()
            invariant
                i <= items@.len(),
                views == value_views(items@),
                self@ == ValueView::Array(views),
                forall|j: int| 0 <= j < i ==> is_text_dict(bare(#[trigger] views[j])),
            decreases items@.len() - i,
        {
            assert(views[i as int] == items@[i as int]@);
            if !items[i].bare().has_text_keys() {
                return None;
            }
            i = i + 1;
        }
        if items.len() == 0 {
            return Some(None);
        }
        assert(views[0] == items@[0]@);
        match items[0].bare() {
            Value::Dict(entries) => {
                proof {
                    lemma_dict_view(*entries);
                }
                Some(Some(entries))
            },
            _ => None,
        }
    }
}

/// Finds the first value with a key in a dictionary.
pub fn find_in_dict<'a>(entries: &'a Vec<(Value, Value)>, key: &str) -> (r: Option<&'a Value>)
    ensures
        match r {
            Some(value) => dict_value(pair_views(entries@), key@) == Some(value@),
            None => dict_value(pair_views(entries@), key@) is None,
        },
{
    let ghost views = pair_views(entries@);
    let mut i: usize = 0;
    assert(views.skip(0) =~= views);
    while i < entries.len()
        invariant
            i <= entries@.len(),
            views == pair_views(entries@),
            dict_value(views, key@) == dict_value(views.skip(i as int), key@),
        decreases entries@.len() - i,
    {
        assert(views.skip(i as int)[0] == (entries@[i as int].0@, entries@[i as int].1@));
        assert(views.skip(i as int).skip(1) =~= views.skip(i + 1));
        match entries[i].0.bare().text() {
            Some(name) => {
                if same_text(name, key) {
                    return Some(entries[i].1.bare());
                }
            },
            None => {},
        }
        i = i + 1;
    }
    None
}

// --- Settings --------------------------------------------------------------------------------

/// The properties of a section of settings.
#[derive(Debug, PartialEq, Eq)]
pub struct Section {
    pub entries: Vec<(String, Value)>,
}

/// The properties of a section, in order.
pub type SectionView = Seq<(Seq<char>, ValueView)>;

/// The views of a list of properties.
pub open spec fn property_views(entries: Seq<(String, Value)>) -> SectionView {
    entries.map_values(|entry: (String, Value)| (entry.0@, entry.1@))
}

/// The position of the first property with a key, or how many there are.
pub open spec fn place_of(entries: SectionView, key: Seq<char>) -> int
    decreases entries.len(),
{
    if entries.len() == 0 || entries[0].0 == key {
        0
    } else {
        1 + place_of(entries.skip(1), key)
    }
}

/// The value of the first property with a key.
pub open spec fn property(entries: SectionView, key: Seq<char>) -> Option<ValueView> {
    let k = place_of(entries, key);
    if k < entries.len() {
        Some(entries[k].1)
    } else {
        None
    }
}

/// The properties with one of them set.
pub open spec fn with_property(entries: SectionView, key: Seq<char>, value: ValueView) -> SectionView {
    let k = place_of(entries, key);
    if k < entries.len() {
        entries.update(k, (key, value))
    } else {
        entries.push((key, value))
    }
}

/// What the place of a key is.
pub proof fn lemma_place(entries: SectionView, key: Seq<char>)
    ensures
        0 <= place_of(entries, key) <= entries.len(),
        forall|i: int| 0 <= i < place_of(entries, key) ==> (#[trigger] entries[i]).0 != key,
        place_of(entries, key) < entries.len() ==> entries[place_of(entries, key)].0 == key,
    decreases entries.len(),
{
    if entries.len() > 0 && entries[0].0 != key {
        let rest = entries.skip(1);
        lemma_place(rest, key);
        assert forall|i: int| 0 <= i < place_of(entries, key) implies (#[trigger] entries[i]).0
            != key by {
            if i > 0 {
                assert(rest[i - 1] == entries[i]);
            }
        }
    }
}

/// A position is the place of a key if no earlier property has the key, and the
/// property there has it.
pub proof fn lemma_place_is(entries: SectionView, key: Seq<char>, k: int)
    requires
        0 <= k <= entries.len(),
        forall|i: int| 0 <= i < k ==> (#[trigger] entries[i]).0 != key,
        k < entries.len() ==> entries[k].0 == key,
    ensures
        place_of(entries, key) == k,
{
    lemma_place(entries, key);
    let p = place_of(entries, key);
    if p < k {
        assert(entries[p].0 != key);
    } else if k < p {
        assert(entries[k].0 != key);
    }
}

impl Section {
    pub open spec fn view(&self) -> SectionView {
        property_views(self.entries@)
    }

    /// A section without properties.
    pub fn new() -> (r: Self)
        ensures
            r@ == SectionView::empty(),
    {
        let r = Section { entries: Vec::new() };
        assert(r@ =~= SectionView::empty());
        r
    }

    fn place(&self, key: &str) -> (r: usize)
        ensures
            r == place_of(self@, key@),
            r <= self.entries@.len(),
    {
        let ghost views = self@;
        let mut i: usize = 0;
        while i < self.entries.len()
            invariant
                i <= self.entries@.len(),
                views == property_views(self.entries@),
                forall|j: int| 0 <= j < i ==> (#[trigger] views[j]).0 != key@,
            decreases self.entries@.len() - i,
        {
            assert(views[i as int].0 == self.entries@[i as int].0@);
            if same_text(self.entries[i].0.as_str(), key) {
                proof {
                    lemma_place_is(views, key@, i as int);
                }
                return i;
            }
            i = i + 1;
        }
        proof {
            lemma_place_is(views, key@, i as int);
        }
        i
    }

    /// Finds a property.
    pub fn get(&self, key: &str) -> (r: Option<&Value>)
        ensures
            match r {
                Some(value) => property(self@, key@) == Some(value@),
                None => property(self@, key@) is None,
            },
    {
        let k: usize = self.place(key);
        if k < self.entries.len() {
            assert(self@[k as int].1 == self.entries@[k as int].1@);
            Some(&self.entries[k].1)
        } else {
            None
        }
    }

    /// Whether there is a property with a key.
    pub fn contains_key(&self, key: &str) -> (r: bool)
        ensures
            r == (property(self@, key@) is Some),
    {
        self.get(key).is_some()
    }

    /// Sets a property.
    pub fn insert(&mut self, key: &str, value: Value)
        ensures
            final(self)@ == with_property(old(self)@, key@, value@),
    {
        let k: usize = self.place(key);
        if k < self.entries.len() {
            self.entries.set(k, (key.to_owned(), value));
            assert(self@ =~= old(self)@.update(k as int, (key@, value@)));
        } else {
            self.entries.push((key.to_owned(), value));
            assert(self@ =~= old(self)@.push((key@, value@)));
        }
    }

    /// Adds a property at the end.
    pub(crate) fn push(&mut self, key: &str, value: Value)
        ensures
            final(self)@ == old(self)@.push((key@, value@)),
    {
        self.entries.push((key.to_owned(), value));
        assert(self@ =~= old(self)@.push((key@, value@)));
    }

    /// The text of a property.
    pub fn text(&self, key: &str) -> (r: Option<&str>)
        ensures
            crate::text::str_view(r) == section_text(self@, key@),
    {
        match self.get(key) {
            Some(value) => value.text(),
            None => None,
        }
    }
}

/// The text of a property.
pub open spec fn section_text(section: SectionView, key: Seq<char>) -> Option<Seq<char>> {
    match property(section, key) {
        Some(value) => text_in(value),
        None => None,
    }
}

/// A NetworkManager connection settings dictionary (`a{sa{sv}}`).
#[derive(Debug, PartialEq, Eq)]
pub struct SettingsDict {
    pub sections: Vec<(String, Section)>,
}

/// The sections of settings, in order.
pub type SettingsView = Seq<(Seq<char>, SectionView)>;

/// The views of a list of sections.
pub open spec fn section_views(sections: Seq<(String, Section)>) -> SettingsView {
    sections.map_values(|entry: (String, Section)| (entry.0@, entry.1@))
}

/// The position of the first section with a name, or how many there are.
pub open spec fn section_place(sections: SettingsView, name: Seq<char>) -> int
    decreases sections.len(),
{
    if sections.len() == 0 || sections[0].0 == name {
        0
    } else {
        1 + section_place(sections.skip(1), name)
    }
}

/// The first section with a name.
pub open spec fn section_of(sections: SettingsView, name: Seq<char>) -> Option<SectionView> {
    let k = section_place(sections, name);
    if k < sections.len() {
        Some(sections[k].1)
    } else {
        None
    }
}

/// The settings with one section set.
pub open spec fn with_section(sections: SettingsView, name: Seq<char>, section: SectionView) -> SettingsView {
    let k = section_place(sections, name);
    if k < sections.len() {
        sections.update(k, (name, section))
    } else {
        sections.push((name, section))
    }
}

/// What the place of a section is.
pub proof fn lemma_section_place(sections: SettingsView, name: Seq<char>)
    ensures
        0 <= section_place(sections, name) <= sections.len(),
        forall|i: int| 0 <= i < section_place(sections, name) ==> (#[trigger] sections[i]).0 != name,
        section_place(sections, name) < sections.len() ==> sections[section_place(sections, name)].0
            == name,
    decreases sections.len(),
{
    if sections.len() > 0 && sections[0].0 != name {
        let rest = sections.skip(1);
        lemma_section_place(rest, name);
        assert forall|i: int| 0 <= i < section_place(sections, name) implies (
        #[trigger] sections[i]).0 != name by {
            if i > 0 {
                assert(rest[i - 1] == sections[i]);
            }
        }
    }
}

/// A position is the place of a section if no earlier one has the name, and the
/// one there has it.
pub proof fn lemma_section_place_is(sections: SettingsView, name: Seq<char>, k: int)
    requires
        0 <= k <= sections.len(),
        forall|i: int| 0 <= i < k ==> (#[trigger] sections[i]).0 != name,
        k < sections.len() ==> sections[k].0 == name,
    ensures
        section_place(sections, name) == k,
{
    lemma_section_place(sections, name);
    let p = section_place(sections, name);
    if p < k {
        assert(sections[p].0 != name);
    } else if k < p {
        assert(sections[k].0 != name);
    }
}

impl SettingsDict {
    pub open spec fn view(&self) -> SettingsView {
        section_views(self.sections@)
    }

    /// Settings without sections.
    pub fn new() -> (r: Self)
        ensures
            r@ == SettingsView::empty(),
    {
        let r = SettingsDict { sections: Vec::new() };
        assert(r@ =~= SettingsView::empty());
        r
    }

    /// Whether there are no sections.
    pub fn is_empty(&self) -> (r: bool)
        ensures
            r == (self@.len() == 0),
    {
        self.sections.len() == 0
    }

    fn place(&self, name: &str) -> (r: usize)
        ensures
            r == section_place(self@, name@),
            r <= self.sections@.len(),
    {
        let ghost views = self@;
        let mut i: usize = 0;
        while i < self.sections.len()
            invariant
                i <= self.sections@.len(),
                views == section_views(self.sections@),
                forall|j: int| 0 <= j < i ==> (#[trigger] views[j]).0 != name@,
            decreases self.sections@.len() - i,
        {
            assert(views[i as int].0 == self.sections@[i as int].0@);
            if same_text(self.sections[i].0.as_str(), name) {
                proof {
                    lemma_section_place_is(views, name@, i as int);
                }
                return i;
            }
            i = i + 1;
        }
        proof {
            lemma_section_place_is(views, name@, i as int);
        }
        i
    }

    /// Finds a section.
    pub fn get(&self, name: &str) -> (r: Option<&Section>)
        ensures
            match r {
                Some(section) => section_of(self@, name@) == Some(section@),
                None => section_of(self@, name@) is None,
            },
    {
        let k: usize = self.place(name);
        if k < self.sections.len() {
            assert(self@[k as int].1 == self.sections@[k as int].1@);
            Some(&self.sections[k].1)
        } else {
            None
        }
    }

    /// Whether there is a section with a name.
    pub fn contains_key(&self, name: &str) -> (r: bool)
        ensures
            r == (section_of(self@, name@) is Some),
    {
        self.get(name).is_some()
    }

    /// Sets a section.
    pub fn insert(&mut self, name: &str, section: Section)
        ensures
            final(self)@ == with_section(old(self)@, name@, section@),
    {
        let k: usize = self.place(name);
        if k < self.sections.len() {
            self.sections.set(k, (name.to_owned(), section));
            assert(self@ =~= old(self)@.update(k as int, (name@, section@)));
        } else {
            self.sections.push((name.to_owned(), section));
            assert(self@ =~= old(self)@.push((name@, section@)));
        }
    }

    /// Sets a property of a section, which is added if it is not there.
    pub fn put(&mut self, name: &str, key: &str, value: Value)
        ensures
            final(self)@ == with_section(
                old(self)@,
                name@,
                with_property(
                    match section_of(old(self)@, name@) {
                        Some(section) => section,
                        None => SectionView::empty(),
                    },
                    key@,
                    value@,
                ),
            ),
    {
        let k: usize = self.place(name);
        let mut section: Section = Section::new();
        if k < self.sections.len() {
            assert(self@[k as int].1 == self.sections@[k as int].1@);
            std::mem::swap(&mut section, &mut self.sections[k].1);
            section.insert(key, value);
            self.sections.set(k, (name.to_owned(), section));
            assert(self@ =~= old(self)@.update(k as int, (name@, section@)));
        } else {
            section.insert(key, value);
            self.sections.push((name.to_owned(), section));
            assert(self@ =~= old(self)@.push((name@, section@)));
        }
    }

    /// Adds a section at the end.
    pub(crate) fn push(&mut self, name: &str, section: Section)
        ensures
            final(self)@ == old(self)@.push((name@, section@)),
    {
        self.sections.push((name.to_owned(), section));
        assert(self@ =~= old(self)@.push((name@, section@)));
    }
}

} // verus!
