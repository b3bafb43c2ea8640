use vstd::prelude::*;

verus! {

/// A YAML document node, with tags already stripped and numbers kept in
/// their textual form.
#[derive(Debug, PartialEq)]
pub enum Yaml {
    Null,
    Bool(bool),
    Number(String),
    String(String),
    Sequence(Vec<Yaml>),
    Mapping(Vec<(Yaml, Yaml)>),
}

/// Mathematical model of a YAML node.
pub ghost enum YamlValue {
    Null,
    Bool(bool),
    Number(Seq<char>),
    Str(Seq<char>),
    Sequence(Seq<YamlValue>),
    Mapping(Seq<(YamlValue, YamlValue)>),
}

/// The text of a string node.
pub open spec fn str_of(v: YamlValue) -> Option<Seq<char>> {
    match v {
        YamlValue::Str(s) => Some(s),
        _ => None,
    }
}

/// The value of a boolean node.
pub open spec fn bool_of(v: YamlValue) -> Option<bool> {
    match v {
        YamlValue::Bool(b) => Some(b),
        _ => None,
    }
}

/// The items of a sequence node whose items are all strings.
pub open spec fn strings_of(v: YamlValue) -> Option<Seq<Seq<char>>> {
    match v {
        YamlValue::Sequence(items) => if forall|i: int|
            0 <= i < items.len() ==> (#[trigger] items[i]) is Str {
            Some(items.map_values(|x: YamlValue| x->Str_0))
        } else {
            None
        },
        _ => None,
    }
}

/// The entries of a mapping node whose keys are all strings.
pub open spec fn string_map_of(v: YamlValue) -> Option<Seq<(Seq<char>, YamlValue)>> {
    match v {
        YamlValue::Mapping(entries) => if forall|i: int|
            0 <= i < entries.len() ==> (#[trigger] entries[i]).0 is Str {
            Some(entries.map_values(|e: (YamlValue, YamlValue)| (e.0->Str_0, e.1)))
        } else {
            None
        },
        _ => None,
    }
}

/// The value of the first entry whose key is the string `key`.
pub open spec fn lookup_entry(entries: Seq<(YamlValue, YamlValue)>, key: Seq<char>) -> Option<YamlValue>
    decreases entries.len(),
{
    if entries.len() == 0 {
        None
    } else if entries[0].0 == YamlValue::Str(key) {
        Some(entries[0].1)
    } else {
        lookup_entry(entries.drop_first(), key)
    }
}

/// The value stored under `key` in a mapping node.
pub open spec fn field_of(v: YamlValue, key: Seq<char>) -> Option<YamlValue> {
    match v {
        YamlValue::Mapping(entries) => lookup_entry(entries, key),
        _ => None,
    }
}

impl Yaml {
    pub open spec fn view(&self) -> YamlValue
        decreases self,
    {
        match self {
            Yaml::Null => YamlValue::Null,
            Yaml::Bool(b) => YamlValue::Bool(*b),
            Yaml::Number(n) => YamlValue::Number(n@),
            Yaml::String(s) => YamlValue::Str(s@),
            Yaml::Sequence(items) => YamlValue::Sequence(
                Seq::new(
                    items.len() as nat,
                    |i: int|
                        if 0 <= i < items.len() {
                            items[i].view()
                        } else {
                            YamlValue::Null
                        },
                ),
            ),
            Yaml::Mapping(entries) => YamlValue::Mapping(
                Seq::new(
                    entries.len() as nat,
                    |i: int|
                        if 0 <= i < entries.len() {
                            (entries[i].0.view(), entries[i].1.view())
                        } else {
                            (YamlValue::Null, YamlValue::Null)
                        },
                ),
            ),
        }
    }

    /// A copy of this node with the same model.
    pub fn copy(&self) -> (r: Yaml)
        ensures
            r.view() == self.view(),
        decreases self,
    {
        match self {
            Yaml::Null => Yaml::Null,
            Yaml::Bool(b) => Yaml::Bool(*b),
            Yaml::Number(n) => Yaml::Number(n.clone()),
            Yaml::String(s) => Yaml::String(s.clone()),
            Yaml::Sequence(items) => {
                let mut out: Vec<Yaml> = Vec::new();
                let mut i: usize = 0;
                while i < items.len()
                    invariant
                        *self == Yaml::Sequence(*items),
                        self@->Sequence_0.len() == items.len(),
                        forall|j: int| 0 <= j < items.len() ==> #[trigger] self@->Sequence_0[j] == items[j]@,
                        i <= items.len(),
                        out.len() == i,
                        forall|j: int| 0 <= j < i ==> (#[trigger] out[j]).view() == items[j].view(),
                    decreases items.len() - i,
                {
                    proof {
                        assert(decreases_to!(*self => self->Sequence_0));
                        assert(decreases_to!(*items => items@));
                        assert(decreases_to!(items@ => items@[i as int]));
                    }
                    out.push(items[i].copy());
                    i = i + 1;
                }
                let r = Yaml::Sequence(out);
                assert(r.view()->Sequence_0 =~= self.view()->Sequence_0);
                r
            },
            Yaml::Mapping(entries) => {
                let mut out: Vec<(Yaml, Yaml)> = Vec::new();
                let mut i: usize = 0;
                while i < entries.len()
                    invariant
                        *self == Yaml::Mapping(*entries),
                        self@->Mapping_0.len() == entries.len(),
                        forall|j: int| 0 <= j < entries.len() ==> #[trigger] self@->Mapping_0[j] == (entries[j].0@, entries[j].1@),
                        i <= entries.len(),
                        out.len() == i,
                        forall|j: int|
                            0 <= j < i ==> (#[trigger] out[j]).0.view() == entries[j].0.view()
                                && out[j].1.view() == entries[j].1.view(),
                    decreases entries.len() - i,
                {
                    proof {
                        assert(decreases_to!(*self => self->Mapping_0));
                        assert(decreases_to!(*entries => entries@));
                        assert(decreases_to!(entries@ => entries@[i as int]));
                        assert(decreases_to!(entries[i as int] => entries[i as int].0));
                        assert(decreases_to!(entries[i as int] => entries[i as int].1));
                    }
                    let k = entries[i].0.copy();
                    let v = entries[i].1.copy();
                    out.push((k, v));
                    i = i + 1;
                }
                let r = Yaml::Mapping(out);
                assert(r.view()->Mapping_0 =~= self.view()->Mapping_0);
                r
            },
        }
    }

    pub fn as_str(&self) -> (r: Option<String>)
        ensures
            r matches Some(t) ==> str_of(self@) == Some(t@),
            r is None ==> str_of(self@) is None,
    {
        match self {
            Yaml::String(s) => Some(s.clone()),
            _ => None,
        }
    }

    pub fn as_bool(&self) -> (r: Option<bool>)
        ensures
            r == bool_of(self@),
    {
        match self {
            Yaml::Bool(b) => Some(*b),
            _ => None,
        }
    }

    /// The items of a sequence of strings, or `None` for any other node.
    pub fn as_strings(&self) -> (r: Option<Vec<String>>)
        ensures
            r matches Some(v) ==> strings_of(self@) == Some(v@.map_values(|t: String| t@)),
            r is None ==> strings_of(self@) is None,
    {
        match self {
            Yaml::Sequence(items) => {
                proof {
                    self.lemma_sequence_view();
                }
                let mut out: Vec<String> = Vec::new();
                let mut i: usize = 0;
                while i < items.len()
                    invariant
                        *self == Yaml::Sequence(*items),
                        self@->Sequence_0.len() == items.len(),
                        forall|j: int| 0 <= j < items.len() ==> #[trigger] self@->Sequence_0[j] == items[j]@,
                        i <= items.len(),
                        out.len() == i,
                        forall|j: int| 0 <= j < i ==> (#[trigger] items[j]@) == YamlValue::Str(out[j]@),
                    decreases items.len() - i,
                {
                    match &items[i] {
                        Yaml::String(t) => out.push(t.clone()),
                        _ => {
                            assert(!(self@->Sequence_0[i as int] is Str));
                            return None;
                        },
                    }
                    i = i + 1;
                }
                assert(out@.map_values(|t: String| t@) =~= self@->Sequence_0.map_values(
                    |x: YamlValue| x->Str_0,
                ));
                Some(out)
            },
            _ => None,
        }
    }

    /// The entries of a mapping with string keys, or `None` for any other node.
    pub fn as_string_map(&self) -> (r: Option<Vec<(String, Yaml)>>)
        ensures
            r matches Some(v) ==> string_map_of(self@) == Some(
                v@.map_values(|e: (String, Yaml)| (e.0@, e.1@)),
            ),
            r is None ==> string_map_of(self@) is None,
    {
        match self {
            Yaml::Mapping(entries) => {
                proof {
                    self.lemma_mapping_view();
                }
                let mut out: Vec<(String, Yaml)> = Vec::new();
                let mut i: usize = 0;
                while i < entries.len()
                    invariant
                        *self == Yaml::Mapping(*entries),
                        self@->Mapping_0.len() == entries.len(),
                        forall|j: int| 0 <= j < entries.len() ==> #[trigger] self@->Mapping_0[j] == (entries[j].0@, entries[j].1@),
                        i <= entries.len(),
                        out.len() == i,
                        forall|j: int|
                            0 <= j < i ==> (#[trigger] entries[j].0@) == YamlValue::Str(out[j].0@)
                                && entries[j].1@ == out[j].1@,
                    decreases entries.len() - i,
                {
                    match &entries[i].0 {
                        Yaml::String(t) => {
                            let v = entries[i].1.copy();
                            out.push((t.clone(), v));
                        },
                        _ => {
                            assert(!(self@->Mapping_0[i as int].0 is Str));
                            return None;
                        },
                    }
                    i = i + 1;
                }
                assert(out@.map_values(|e: (String, Yaml)| (e.0@, e.1@)) =~= self@->Mapping_0.map_values(
                    |e: (YamlValue, YamlValue)| (e.0->Str_0, e.1),
                ));
                Some(out)
            },
            _ => None,
        }
    }

    /// The value stored under `key`, where this node is a mapping.
    pub fn get(&self, key: &str) -> (r: Option<&Yaml>)
        ensures
            r matches Some(v) ==> field_of(self@, key@) == Some(v@),
            r is None ==> field_of(self@, key@) is None,
    {
        match self {
            Yaml::Mapping(entries) => {
                proof {
                    self.lemma_mapping_view();
                    assert(self@->Mapping_0.skip(0) =~= self@->Mapping_0);
                }
                let k = key.to_owned();
                let mut i: usize = 0;
                while i < entries.len()
                    invariant
                        *self == Yaml::Mapping(*entries),
                        self@->Mapping_0.len() == entries.len(),
                        forall|j: int| 0 <= j < entries.len() ==> #[trigger] self@->Mapping_0[j] == (entries[j].0@, entries[j].1@),
                        k@ == key@,
                        i <= entries.len(),
                        lookup_entry(self@->Mapping_0, key@) == lookup_entry(
                            self@->Mapping_0.skip(i as int),
                            key@,
                        ),
                    decreases entries.len() - i,
                {
                    let hit = match &entries[i].0 {
                        Yaml::String(t) => *t == k,
                        _ => false,
                    };
                    assert(self@->Mapping_0.skip(i as int).drop_first() =~= self@->Mapping_0.skip(
                        i + 1,
                    ));
                    if hit {
                        return Some(&entries[i].1);
                    }
                    i = i + 1;
                }
                None
            },
            _ => None,
        }
    }

    pub proof fn lemma_sequence_view(&self)
        requires
            self is Sequence,
        ensures
            self@->Sequence_0.len() == self->Sequence_0.len(),
            forall|j: int|
                0 <= j < self->Sequence_0.len() ==> #[trigger] self@->Sequence_0[j]
                    == self->Sequence_0[j]@,
    {
    }

    pub proof fn lemma_mapping_view(&self)
        requires
            self is Mapping,
        ensures
            self@->Mapping_0.len() == self->Mapping_0.len(),
            forall|j: int|
                0 <= j < self->Mapping_0.len() ==> #[trigger] self@->Mapping_0[j] == (
                    self->Mapping_0[j].0@,
                    self->Mapping_0[j].1@,
                ),
    {
    }
}

} // verus!
