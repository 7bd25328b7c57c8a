//! Property values of elements.

use crate::assoc::{
    absent_from, assoc, lemma_assoc_found, lemma_assoc_missing, lemma_assoc_push,
    lemma_assoc_update,
};
use vstd::prelude::*;

verus! {

/// A reference to an element: by its interchange id, or — while nothing it
/// could denote is known — by its spelling.
pub enum Link {
    Id(u128),
    Name(String),
}

/// A reference by its text.
pub enum LinkV {
    Id(u128),
    Name(Seq<char>),
}

impl Link {
    pub open spec fn view(&self) -> LinkV {
        match self {
            Link::Id(id) => LinkV::Id(*id),
            Link::Name(s) => LinkV::Name(s@),
        }
    }

    pub fn duplicate(&self) -> (r: Link)
        ensures
            r@ == self@,
    {
        match self {
            Link::Id(id) => Link::Id(*id),
            Link::Name(s) => Link::Name(s.clone()),
        }
    }
}

/// A property value. A rational number is kept as the text it was written
/// with.
pub enum Value {
    Null,
    Bool(bool),
    Int(i64),
    Real(String),
    Str(String),
    Ref(Link),
    List(Vec<Link>),
}

/// A property value by its texts.
pub enum ValueV {
    Null,
    Bool(bool),
    Int(i64),
    Real(Seq<char>),
    Str(Seq<char>),
    Ref(LinkV),
    List(Seq<LinkV>),
}

pub open spec fn links_view(s: Seq<Link>) -> Seq<LinkV> {
    s.map_values(|l: Link| l@)
}

impl Value {
    pub open spec fn view(&self) -> ValueV {
        match self {
            Value::Null => ValueV::Null,
            Value::Bool(b) => ValueV::Bool(*b),
            Value::Int(n) => ValueV::Int(*n),
            Value::Real(s) => ValueV::Real(s@),
            Value::Str(s) => ValueV::Str(s@),
            Value::Ref(l) => ValueV::Ref(l@),
            Value::List(v) => ValueV::List(links_view(v@)),
        }
    }
}

impl ValueV {
    /// The text of a string value.
    pub open spec fn as_str(self) -> Option<Seq<char>> {
        match self {
            ValueV::Str(s) => Some(s),
            _ => None,
        }
    }

    /// The truth value of a boolean.
    pub open spec fn as_bool(self) -> Option<bool> {
        match self {
            ValueV::Bool(b) => Some(b),
            _ => None,
        }
    }
}

pub open spec fn pairs_view(s: Seq<(&'static str, Value)>) -> Seq<(Seq<char>, ValueV)> {
    s.map_values(|p: (&'static str, Value)| (p.0@, p.1@))
}

/// The properties of an element.
pub struct Props {
    pub pairs: Vec<(&'static str, Value)>,
}

impl Props {
    pub open spec fn view(&self) -> Map<Seq<char>, ValueV> {
        assoc(pairs_view(self.pairs@))
    }

    pub fn new() -> (r: Props)
        ensures
            r@ == Map::<Seq<char>, ValueV>::empty(),
    {
        Props { pairs: Vec::new() }
    }

    fn position(&self, key: &str) -> (r: Option<usize>)
        ensures
            match r {
                Some(i) => i < self.pairs@.len() && self.pairs@[i as int].0@ == key@
                    && absent_from(pairs_view(self.pairs@), key@, i + 1),
                None => absent_from(pairs_view(self.pairs@), key@, 0),
            },
    {
        let mut i: usize = self.pairs.len();
        while i > 0
            invariant
                i <= self.pairs@.len(),
                absent_from(pairs_view(self.pairs@), key@, i as int),
            decreases i,
        {
            i -= 1;
            if crate::text::str_eq(self.pairs[i].0, key) {
                return Some(i);
            }
            assert(pairs_view(self.pairs@)[i as int].0 != key@);
        }
        None
    }

    /// The value of a property.
    pub fn get(&self, key: &str) -> (r: Option<&Value>)
        ensures
            match r {
                Some(v) => self@.contains_key(key@) && self@[key@] == v@,
                None => !self@.contains_key(key@),
            },
    {
        match self.position(key) {
            Some(i) => {
                proof {
                    lemma_assoc_found(pairs_view(self.pairs@), key@, i as int);
                }
                Some(&self.pairs[i].1)
            },
            None => {
                proof {
                    lemma_assoc_missing(pairs_view(self.pairs@), key@);
                }
                None
            },
        }
    }

    /// Set a property, over the value it had.
    pub fn insert(&mut self, key: &'static str, value: Value)
        ensures
            final(self)@ == old(self)@.insert(key@, value@),
    {
        let ghost before = pairs_view(self.pairs@);
        let ghost v = value@;
        match self.position(key) {
            Some(i) => {
                proof {
                    lemma_assoc_update(before, key@, i as int, v);
                }
                self.pairs.set(i, (key, value));
                assert(pairs_view(self.pairs@) =~= before.update(i as int, (key@, v)));
            },
            None => {
                proof {
                    lemma_assoc_push(before, key@, v);
                }
                self.pairs.push((key, value));
                assert(pairs_view(self.pairs@) =~= before.push((key@, v)));
            },
        }
    }

    /// Append a reference to a list property, starting the list where the
    /// property is not one.
    pub fn append(&mut self, key: &'static str, link: Link)
        ensures
            final(self)@ == old(self)@.insert(key@, appended(old(self)@, key@, link@)),
    {
        let ghost before = pairs_view(self.pairs@);
        let ghost l = link@;
        match self.position(key) {
            Some(i) => {
                proof {
                    lemma_assoc_found(before, key@, i as int);
                }
                let mut links: Vec<Link> = Vec::new();
                if let Value::List(v) = &self.pairs[i].1 {
                    let mut k: usize = 0;
                    while k < v.len()
                        invariant
                            k <= v@.len(),
                            links_view(links@) =~= links_view(v@).subrange(0, k as int),
                        decreases v@.len() - k,
                    {
                        links.push(v[k].duplicate());
                        k += 1;
                        assert(links_view(v@).subrange(0, k as int) =~= links_view(v@).subrange(
                            0,
                            k - 1,
                        ).push(v@[k - 1]@));
                    }
                    assert(links_view(links@) =~= links_view(v@));
                } else {
                    assert(links_view(links@) =~= Seq::<LinkV>::empty());
                }
                links.push(link);
                assert(appended(self@, key@, l) == ValueV::List(links_view(links@))) by {
                    assert(links_view(links@) =~= (match self@[key@] {
                        ValueV::List(s) => s,
                        _ => Seq::<LinkV>::empty(),
                    }).push(l));
                }
                proof {
                    lemma_assoc_update(before, key@, i as int, ValueV::List(links_view(links@)));
                }
                let ghost nv = ValueV::List(links_view(links@));
                self.pairs.set(i, (key, Value::List(links)));
                assert(pairs_view(self.pairs@) =~= before.update(i as int, (key@, nv)));
            },
            None => {
                let mut links: Vec<Link> = Vec::new();
                links.push(link);
                assert(links_view(links@) =~= Seq::<LinkV>::empty().push(l));
                proof {
                    lemma_assoc_missing(before, key@);
                    lemma_assoc_push(before, key@, ValueV::List(links_view(links@)));
                }
                let ghost nv = ValueV::List(links_view(links@));
                self.pairs.push((key, Value::List(links)));
                assert(pairs_view(self.pairs@) =~= before.push((key@, nv)));
            },
        }
    }
}

/// The list property with one more reference.
pub open spec fn appended(m: Map<Seq<char>, ValueV>, key: Seq<char>, link: LinkV) -> ValueV {
    ValueV::List(
        (if m.contains_key(key) {
            match m[key] {
                ValueV::List(s) => s,
                _ => Seq::empty(),
            }
        } else {
            Seq::empty()
        }).push(link),
    )
}

} // verus!
