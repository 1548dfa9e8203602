//! The analyzer's scoped symbol table: a stack of frames, each mapping an
//! identifier to its declared type.  New declarations enter the innermost
//! frame; lookup walks the frames innermost first.

use vstd::prelude::*;
use crate::parsing::ast::{Type, TypeV};
use crate::parsing::text::str_eq;

verus! {

/// A stack of scope frames mapping identifiers to declared types.  Its
/// model is the stack of the frames' maps, the root frame first.
pub struct SymbolTable {
    memory_frame: Vec<Vec<(String, Type)>>,
}

/// The map a single frame holds: a later entry for a name shadows an
/// earlier one.
pub open spec fn type_frame_map(s: Seq<(String, Type)>) -> Map<Seq<char>, TypeV>
    decreases s.len(),
{
    if s.len() == 0 {
        Map::empty()
    } else {
        type_frame_map(s.drop_last()).insert(s.last().0@, s.last().1@)
    }
}

/// The type bound to a name, found in the innermost frame that binds it.
pub open spec fn type_lookup(m: Seq<Map<Seq<char>, TypeV>>, k: Seq<char>) -> Option<TypeV>
    decreases m.len(),
{
    if m.len() == 0 {
        None
    } else if m.last().contains_key(k) {
        Some(m.last()[k])
    } else {
        type_lookup(m.drop_last(), k)
    }
}

/// Whether any live frame binds the name.
pub open spec fn type_declared(m: Seq<Map<Seq<char>, TypeV>>, k: Seq<char>) -> bool {
    exists|i: int| 0 <= i < m.len() && (#[trigger] m[i]).contains_key(k)
}

/// A name is found by lookup exactly when some live frame binds it.
pub proof fn lemma_type_lookup_declared(m: Seq<Map<Seq<char>, TypeV>>, k: Seq<char>)
    ensures
        (type_lookup(m, k) is Some) == type_declared(m, k),
    decreases m.len(),
{
    if m.len() > 0 {
        lemma_type_lookup_declared(m.drop_last(), k);
        if m.last().contains_key(k) {
            assert(m[m.len() - 1].contains_key(k));
        } else {
            if type_declared(m.drop_last(), k) {
                let i = choose|i: int|
                    0 <= i < m.len() - 1 && (#[trigger] m.drop_last()[i]).contains_key(k);
                assert(m[i].contains_key(k));
            }
            if type_declared(m, k) {
                let i = choose|i: int| 0 <= i < m.len() && (#[trigger] m[i]).contains_key(k);
                assert(i < m.len() - 1);
                assert(m.drop_last()[i].contains_key(k));
            }
        }
    }
}

/// Scanning a frame's entries from the latest backwards finds what the
/// frame's map holds.
spec fn type_assoc_get(s: Seq<(String, Type)>, k: Seq<char>) -> Option<TypeV>
    decreases s.len(),
{
    if s.len() == 0 {
        None
    } else if s.last().0@ == k {
        Some(s.last().1@)
    } else {
        type_assoc_get(s.drop_last(), k)
    }
}

proof fn lemma_type_assoc_get_is_map(s: Seq<(String, Type)>, k: Seq<char>)
    ensures
        type_assoc_get(s, k) == (if type_frame_map(s).contains_key(k) {
            Some(type_frame_map(s)[k])
        } else {
            None::<TypeV>
        }),
    decreases s.len(),
{
    if s.len() > 0 {
        lemma_type_assoc_get_is_map(s.drop_last(), k);
    }
}

impl View for SymbolTable {
    type V = Seq<Map<Seq<char>, TypeV>>;

    closed spec fn view(&self) -> Seq<Map<Seq<char>, TypeV>> {
        self.memory_frame@.map_values(|f: Vec<(String, Type)>| type_frame_map(f@))
    }
}

impl SymbolTable {
    /// A table holding only the root frame, empty.
    pub fn new() -> (r: Self)
        ensures
            r@ =~= seq![Map::<Seq<char>, TypeV>::empty()],
    {
        let mut frames: Vec<Vec<(String, Type)>> = Vec::new();
        frames.push(Vec::new());
        Self { memory_frame: frames }
    }

    /// Opens a scope: pushes an empty innermost frame.
    pub fn create_frame(&mut self)
        ensures
            final(self)@ =~= old(self)@.push(Map::empty()),
    {
        self.memory_frame.push(Vec::new());
    }

    /// Closes the innermost scope, if one is open.
    pub fn remove_frame(&mut self)
        ensures
            old(self)@.len() > 0 ==> final(self)@ =~= old(self)@.drop_last(),
            old(self)@.len() == 0 ==> final(self)@ =~= old(self)@,
    {
        let _ = self.memory_frame.pop();
    }

    /// Scans a single frame, latest entry first.
    fn find_in_frame(frame: &Vec<(String, Type)>, key: &str) -> (r: Option<Type>)
        ensures
            match r {
                Some(t) => type_assoc_get(frame@, key@) == Some(t@),
                None => type_assoc_get(frame@, key@) is None,
            },
    {
        let mut j = frame.len();
        proof {
            assert(frame@.subrange(0, frame@.len() as int) =~= frame@);
        }
        while j > 0
            invariant
                0 <= j <= frame@.len(),
                type_assoc_get(frame@, key@) == type_assoc_get(frame@.subrange(0, j as int), key@),
            decreases j,
        {
            j -= 1;
            let entry = &frame[j];
            proof {
                assert(frame@.subrange(0, j + 1).last() == frame@[j as int]);
                assert(frame@.subrange(0, j + 1).drop_last() =~= frame@.subrange(0, j as int));
            }
            if str_eq(entry.0.as_str(), key) {
                return Some(entry.1.clone());
            }
        }
        proof {
            assert(frame@.subrange(0, 0) =~= Seq::<(String, Type)>::empty());
        }
        None
    }

    /// Looks a name up across the live frames, innermost first.
    fn lookup(&self, key: &str) -> (r: Option<Type>)
        ensures
            match r {
                Some(t) => type_lookup(self@, key@) == Some(t@),
                None => type_lookup(self@, key@) is None,
            },
    {
        let n = self.memory_frame.len();
        let mut i = n;
        proof {
            assert(self@.subrange(0, self@.len() as int) =~= self@);
        }
        while i > 0
            invariant
                0 <= i <= n,
                n == self.memory_frame@.len(),
                type_lookup(self@, key@) == type_lookup(self@.subrange(0, i as int), key@),
            decreases i,
        {
            i -= 1;
            proof {
                assert(self@.subrange(0, i + 1).last() == self@[i as int]);
                assert(self@.subrange(0, i + 1).drop_last() =~= self@.subrange(0, i as int));
                lemma_type_assoc_get_is_map(self.memory_frame@[i as int]@, key@);
            }
            let found = Self::find_in_frame(&self.memory_frame[i], key);
            if let Some(t) = found {
                return Some(t);
            }
        }
        proof {
            assert(self@.subrange(0, 0) =~= Seq::<Map<Seq<char>, TypeV>>::empty());
        }
        None
    }

    /// Binds a name to a type in the innermost frame, unless any live
    /// frame already binds it; reports whether the binding was made.
    /// Redeclaration is rejected across all frames, not only the
    /// innermost one.
    pub fn declare(&mut self, key: String, value: Type) -> (r: bool)
        requires
            old(self)@.len() >= 1,
        ensures
            r == !type_declared(old(self)@, key@),
            r ==> final(self)@ =~= old(self)@.update(
                old(self)@.len() - 1,
                old(self)@.last().insert(key@, value@),
            ),
            !r ==> final(self)@ == old(self)@,
    {
        proof {
            lemma_type_lookup_declared(self@, key@);
        }
        if self.lookup(key.as_str()).is_some() {
            return false;
        }
        let ghost k = key@;
        let ghost v = value@;
        let ghost oldframes = self.memory_frame@;
        let n = self.memory_frame.len();
        self.memory_frame[n - 1].push((key, value));
        proof {
            let of = oldframes[n - 1]@;
            assert(self.memory_frame@[n - 1]@ =~= of.push((
                self.memory_frame@[n - 1]@.last().0,
                self.memory_frame@[n - 1]@.last().1,
            )));
            let nf = self.memory_frame@[n - 1]@;
            assert(nf.last().0@ == k && nf.last().1@ == v);
            assert(nf.drop_last() =~= of);
            assert(type_frame_map(nf) == type_frame_map(of).insert(k, v));
            assert(final(self)@ =~= old(self)@.update(
                old(self)@.len() - 1,
                old(self)@.last().insert(k, v),
            ));
        }
        true
    }

    /// The type bound to a name, from the innermost frame that binds it.
    pub fn retrieve_type(&self, key: String) -> (r: Option<Type>)
        ensures
            match r {
                Some(t) => type_lookup(self@, key@) == Some(t@),
                None => type_lookup(self@, key@) is None,
            },
    {
        self.lookup(key.as_str())
    }
}

} // verus!
