//! The named values that a session keeps: element selectors, strings and JSON values.
use vstd::prelude::*;
use crate::text::chars_of;

verus! {

/// A JSON value as the commands read it: a string's content and text, `null`, or the
/// compact JSON text of any other value.
#[derive(Debug, Clone)]
pub enum JsonValue {
    /// A JSON string: its content, and its JSON text (quoted and escaped)
    Str { content: String, json: String },
    /// `null`
    Null,
    /// Any other value, as its compact JSON text
    Other { json: String },
}

pub enum JsonModel {
    Str { content: Seq<char>, json: Seq<char> },
    Null,
    Other { json: Seq<char> },
}

impl View for JsonValue {
    type V = JsonModel;

    open spec fn view(&self) -> JsonModel {
        match self {
            JsonValue::Str { content, json } => JsonModel::Str { content: content@, json: json@ },
            JsonValue::Null => JsonModel::Null,
            JsonValue::Other { json } => JsonModel::Other { json: json@ },
        }
    }
}

/// A value stored under a name.
#[derive(Debug, Clone)]
pub enum Variable {
    /// A CSS selector used to re-locate an element
    ElementSelector(String),
    /// A string value (the result of an evaluation, a title, a URL, ...)
    StringValue(String),
    /// A JSON value
    JsonValue(JsonValue),
}

pub enum VariableModel {
    ElementSelector(Seq<char>),
    StringValue(Seq<char>),
    JsonValue(JsonModel),
}

impl View for Variable {
    type V = VariableModel;

    open spec fn view(&self) -> VariableModel {
        match self {
            Variable::ElementSelector(s) => VariableModel::ElementSelector(s@),
            Variable::StringValue(s) => VariableModel::StringValue(s@),
            Variable::JsonValue(j) => VariableModel::JsonValue(j@),
        }
    }
}

/// The value stored last under `k` in the list of entries `es`.
pub open spec fn lookup(es: Seq<(Seq<char>, VariableModel)>, k: Seq<char>) -> Option<VariableModel>
    decreases es.len(),
{
    if es.len() == 0 {
        None
    } else if es.last().0 == k {
        Some(es.last().1)
    } else {
        lookup(es.drop_last(), k)
    }
}

/// No name occurs twice among the entries `es`.
pub open spec fn names_unique(es: Seq<(Seq<char>, VariableModel)>) -> bool {
    forall|i: int, j: int| 0 <= i < es.len() && 0 <= j < es.len() && i != j ==> es[i].0 != es[j].0
}

proof fn lemma_lookup_absent(es: Seq<(Seq<char>, VariableModel)>, k: Seq<char>)
    requires
        forall|i: int| 0 <= i < es.len() ==> es[i].0 != k,
    ensures
        lookup(es, k) is None,
    decreases es.len(),
{
    if es.len() > 0 {
        lemma_lookup_absent(es.drop_last(), k);
    }
}

proof fn lemma_lookup_at(es: Seq<(Seq<char>, VariableModel)>, i: int)
    requires
        names_unique(es),
        0 <= i < es.len(),
    ensures
        lookup(es, es[i].0) == Some(es[i].1),
    decreases es.len(),
{
    if i < es.len() - 1 {
        lemma_lookup_at(es.drop_last(), i);
    }
}

proof fn lemma_lookup_update(
    es: Seq<(Seq<char>, VariableModel)>,
    i: int,
    v: VariableModel,
    k2: Seq<char>,
)
    requires
        names_unique(es),
        0 <= i < es.len(),
        k2 != es[i].0,
    ensures
        lookup(es.update(i, (es[i].0, v)), k2) == lookup(es, k2),
    decreases es.len(),
{
    let u = es.update(i, (es[i].0, v));
    if i == es.len() - 1 {
        assert(u.drop_last() =~= es.drop_last());
    } else {
        assert(u.drop_last() =~= es.drop_last().update(i, (es[i].0, v)));
        lemma_lookup_update(es.drop_last(), i, v, k2);
    }
}

proof fn lemma_lookup_keys(es: Seq<(Seq<char>, VariableModel)>)
    requires
        names_unique(es),
    ensures
        Set::new(|k: Seq<char>| lookup(es, k) is Some).finite(),
        Set::new(|k: Seq<char>| lookup(es, k) is Some).len() == es.len(),
    decreases es.len(),
{
    let keys = Set::new(|k: Seq<char>| lookup(es, k) is Some);
    if es.len() == 0 {
        assert(keys =~= Set::empty());
    } else {
        let p = es.drop_last();
        assert(names_unique(p));
        lemma_lookup_keys(p);
        let before = Set::new(|k: Seq<char>| lookup(p, k) is Some);
        assert(keys =~= before.insert(es.last().0));
        assert(!before.contains(es.last().0)) by {
            assert forall|i: int| 0 <= i < p.len() implies p[i].0 != es.last().0 by {
                assert(es[i] == p[i]);
            }
            lemma_lookup_absent(p, es.last().0);
        }
    }
}

/// The variables of a session, each name with one value.
pub struct Variables {
    entries: Vec<(String, Variable)>,
}

impl Variables {
    /// The entries as names and values.
    pub closed spec fn entry_views(&self) -> Seq<(Seq<char>, VariableModel)> {
        self.entries@.map_values(|e: (String, Variable)| (e.0@, e.1@))
    }

    /// The names of the variables, in the order in which they were first stored.
    pub closed spec fn names(&self) -> Seq<Seq<char>> {
        self.entry_views().map_values(|e: (Seq<char>, VariableModel)| e.0)
    }

    #[verifier::type_invariant]
    spec fn names_are_unique(&self) -> bool {
        names_unique(self.entry_views())
    }

    proof fn lemma_names(&self)
        requires
            names_unique(self.entry_views()),
        ensures
            self.names().len() == self.entry_views().len(),
            self.names().no_duplicates(),
            forall|k: Seq<char>| self@.contains_key(k) <==> self.names().contains(k),
    {
        let es = self.entry_views();
        let ns = self.names();
        assert forall|i: int, j: int| 0 <= i < ns.len() && 0 <= j < ns.len() && i != j implies ns[i]
            != ns[j] by {
            assert(ns[i] == es[i].0 && ns[j] == es[j].0);
        }
        assert forall|k: Seq<char>| self@.contains_key(k) <==> ns.contains(k) by {
            if ns.contains(k) {
                let i = choose|i: int| 0 <= i < ns.len() && ns[i] == k;
                assert(ns[i] == es[i].0);
                lemma_lookup_at(es, i);
            } else {
                assert forall|i: int| 0 <= i < es.len() implies es[i].0 != k by {
                    assert(ns[i] == es[i].0);
                }
                lemma_lookup_absent(es, k);
            }
        }
    }

    /// An empty set of variables.
    pub fn new() -> (r: Variables)
        ensures
            r@ == Map::<Seq<char>, VariableModel>::empty(),
    {
        let r = Variables { entries: Vec::new() };
        assert(r@ =~= Map::<Seq<char>, VariableModel>::empty());
        r
    }

    /// The number of variables; their names, in order, are each a variable's name, once.
    pub fn len(&self) -> (r: usize)
        ensures
            r == self@.len(),
            r == self.names().len(),
            self.names().no_duplicates(),
            forall|k: Seq<char>| self@.contains_key(k) <==> self.names().contains(k),
    {
        proof {
            use_type_invariant(self);
            self.lemma_view_dom();
            self.lemma_names();
        }
        self.entries.len()
    }

    proof fn lemma_view_dom(&self)
        requires
            names_unique(self.entry_views()),
        ensures
            self@.dom().finite(),
            self@.dom().len() == self.entries@.len(),
    {
        lemma_lookup_keys(self.entry_views());
        assert(self@.dom() =~= Set::new(|k: Seq<char>| lookup(self.entry_views(), k) is Some));
    }

    /// The `i`-th variable, as its name and value; the names of all indices below
    /// [`Variables::len`] are the names of the variables, each once.
    pub fn entry(&self, i: usize) -> (r: (&String, &Variable))
        requires
            i < self@.len(),
        ensures
            r.0@ == self.names()[i as int],
            self@.contains_key(r.0@),
            self@[r.0@] == r.1@,
    {
        proof {
            use_type_invariant(self);
            self.lemma_view_dom();
            lemma_lookup_at(self.entry_views(), i as int);
        }
        let e = &self.entries[i];
        (&e.0, &e.1)
    }

    fn position(&self, name: &[char]) -> (r: Option<usize>)
        ensures
            r matches Some(i) ==> i < self.entry_views().len() && self.entry_views()[i as int].0
                == name@,
            r is None ==> forall|i: int|
                0 <= i < self.entry_views().len() ==> self.entry_views()[i].0 != name@,
    {
        let mut i: usize = 0;
        while i < self.entries.len()
            invariant
                i <= self.entries@.len(),
                forall|j: int| 0 <= j < i ==> self.entry_views()[j].0 != name@,
            decreases self.entries@.len() - i,
        {
            let k = chars_of(self.entries[i].0.as_str());
            if k.len() == name.len() && crate::text::matches_at(k.as_slice(), name, 0) {
                assert(k@.subrange(0, name@.len() as int) =~= k@);
                return Some(i);
            }
            proof {
                if self.entry_views()[i as int].0 == name@ {
                    assert(k@.subrange(0, name@.len() as int) =~= k@);
                }
            }
            i = i + 1;
        }
        None
    }

    /// The value stored under `name`.
    pub fn get(&self, name: &[char]) -> (r: Option<&Variable>)
        ensures
            r matches Some(v) ==> self@.contains_key(name@) && self@[name@] == v@,
            r is None ==> !self@.contains_key(name@),
    {
        proof {
            use_type_invariant(self);
        }
        match self.position(name) {
            Some(i) => {
                proof {
                    lemma_lookup_at(self.entry_views(), i as int);
                }
                Some(&self.entries[i].1)
            },
            None => {
                proof {
                    lemma_lookup_absent(self.entry_views(), name@);
                }
                None
            },
        }
    }

    /// Stores `value` under `name`, in place of any value stored there before.
    pub fn insert(&mut self, name: String, value: Variable)
        ensures
            final(self)@ == old(self)@.insert(name@, value@),
    {
        proof {
            use_type_invariant(&*self);
        }
        let key = chars_of(name.as_str());
        let ghost es = self.entry_views();
        let ghost v = value@;
        let pos = self.position(key.as_slice());
        let mut entries: Vec<(String, Variable)> = Vec::new();
        std::mem::swap(&mut entries, &mut self.entries);
        assert(entries@.map_values(|e: (String, Variable)| (e.0@, e.1@)) == es);
        match pos {
            Some(i) => {
                entries.set(i, (name, value));
                let ghost now = entries@.map_values(|e: (String, Variable)| (e.0@, e.1@));
                assert(now =~= es.update(i as int, (es[i as int].0, v)));
                proof {
                    lemma_lookup_at(now, i as int);
                    assert forall|k2: Seq<char>| k2 != key@ implies lookup(now, k2) == lookup(es, k2) by {
                        lemma_lookup_update(es, i as int, v, k2);
                    }
                    assert forall|a: int, b: int|
                        0 <= a < now.len() && 0 <= b < now.len() && a != b implies now[a].0
                        != now[b].0 by {
                        assert(now[a].0 == es[a].0 && now[b].0 == es[b].0);
                    }
                }
                self.entries = entries;
                assert(self.entry_views() == now);
                assert(self@ =~= old(self)@.insert(key@, v));
            },
            None => {
                entries.push((name, value));
                let ghost now = entries@.map_values(|e: (String, Variable)| (e.0@, e.1@));
                assert(now =~= es.push((key@, v)));
                assert(now.drop_last() =~= es);
                self.entries = entries;
                assert(self.entry_views() == now);
                assert(self@ =~= old(self)@.insert(key@, v));
            },
        }
    }
}

impl View for Variables {
    type V = Map<Seq<char>, VariableModel>;

    closed spec fn view(&self) -> Map<Seq<char>, VariableModel> {
        Map::new(
            |k: Seq<char>| lookup(self.entry_views(), k) is Some,
            |k: Seq<char>| lookup(self.entry_views(), k).unwrap(),
        )
    }
}

} // verus!
