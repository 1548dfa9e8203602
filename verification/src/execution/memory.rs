//! The interpreter's scoped value store: a stack of frames, each mapping
//! an identifier to its current value.  New bindings enter the innermost
//! frame; lookup and assignment walk the frames innermost first.

use vstd::prelude::*;
use crate::execution::value::Value;
use crate::parsing::text::str_eq;

verus! {

/// A stack of scope frames mapping identifiers to runtime values.  Its
/// model is the stack of the frames' maps, the root frame first.
pub struct Memory {
    memory_frame: Vec<Vec<(String, Value)>>,
}

/// The map a single frame holds: a later entry for a name shadows an
/// earlier one.
pub open spec fn value_frame_map(s: Seq<(String, Value)>) -> Map<Seq<char>, Value>
    decreases s.len(),
{
    if s.len() == 0 {
        Map::empty()
    } else {
        value_frame_map(s.drop_last()).insert(s.last().0@, s.last().1)
    }
}

/// The value bound to a name, found in the innermost frame that binds it.
pub open spec fn mem_lookup(m: Seq<Map<Seq<char>, Value>>, k: Seq<char>) -> Option<Value>
    decreases m.len(),
{
    if m.len() == 0 {
        None
    } else if m.last().contains_key(k) {
        Some(m.last()[k])
    } else {
        mem_lookup(m.drop_last(), k)
    }
}

/// The store after assigning to a name: the innermost frame that binds
/// the name has its binding replaced; a store that nowhere binds the name
/// is left unchanged.
pub open spec fn mem_assign(m: Seq<Map<Seq<char>, Value>>, k: Seq<char>, v: Value) -> Seq<
    Map<Seq<char>, Value>,
>
    decreases m.len(),
{
    if m.len() == 0 {
        m
    } else if m.last().contains_key(k) {
        m.update(m.len() - 1, m.last().insert(k, v))
    } else {
        mem_assign(m.drop_last(), k, v).push(m.last())
    }
}

/// Scanning a frame's entries from the latest backwards finds what the
/// frame's map holds.
spec fn value_assoc_get(s: Seq<(String, Value)>, k: Seq<char>) -> Option<Value>
    decreases s.len(),
{
    if s.len() == 0 {
        None
    } else if s.last().0@ == k {
        Some(s.last().1)
    } else {
        value_assoc_get(s.drop_last(), k)
    }
}

proof fn lemma_value_assoc_get_is_map(s: Seq<(String, Value)>, k: Seq<char>)
    ensures
        value_assoc_get(s, k) == (if value_frame_map(s).contains_key(k) {
            Some(value_frame_map(s)[k])
        } else {
            None::<Value>
        }),
    decreases s.len(),
{
    if s.len() > 0 {
        lemma_value_assoc_get_is_map(s.drop_last(), k);
    }
}

impl View for Memory {
    type V = Seq<Map<Seq<char>, Value>>;

    closed spec fn view(&self) -> Seq<Map<Seq<char>, Value>> {
        self.memory_frame@.map_values(|f: Vec<(String, Value)>| value_frame_map(f@))
    }
}

impl Memory {
    /// A store holding only the root frame, empty.
    pub fn new() -> (r: Self)
        ensures
            r@ =~= seq![Map::<Seq<char>, Value>::empty()],
    {
        let mut frames: Vec<Vec<(String, Value)>> = Vec::new();
        frames.push(Vec::new());
        Self { memory_frame: frames }
    }

    /// Opens a scope: pushes an empty innermost frame.
    pub fn create_frame(&mut self)
        ensures
            final(self)@ =~= old(self)@.push(Map::empty()),
    {
        self.memory_frame.push(Vec::new());
    }

    /// Closes the innermost scope, if one is open.
    pub fn remove_frame(&mut self)
        ensures
            old(self)@.len() > 0 ==> final(self)@ =~= old(self)@.drop_last(),
            old(self)@.len() == 0 ==> final(self)@ =~= old(self)@,
    {
        let _ = self.memory_frame.pop();
    }

    /// Binds a name in the innermost frame.
    fn bind(&mut self, key: String, value: Value)
        requires
            old(self)@.len() >= 1,
        ensures
            final(self)@ =~= old(self)@.update(
                old(self)@.len() - 1,
                old(self)@.last().insert(key@, value),
            ),
    {
        let ghost k = key@;
        let ghost oldframes = self.memory_frame@;
        let n = self.memory_frame.len();
        self.memory_frame[n - 1].push((key, value));
        proof {
            let of = oldframes[n - 1]@;
            let nf = self.memory_frame@[n - 1]@;
            assert(nf =~= of.push((nf.last().0, nf.last().1)));
            assert(nf.last().0@ == k && nf.last().1 == value);
            assert(nf.drop_last() =~= of);
            assert(value_frame_map(nf) == value_frame_map(of).insert(k, value));
            assert(final(self)@ =~= old(self)@.update(
                old(self)@.len() - 1,
                old(self)@.last().insert(k, value),
            ));
        }
    }

    /// Declares a name: binds it to `Unit` in the innermost frame.
    pub fn declare(&mut self, key: String)
        requires
            old(self)@.len() >= 1,
        ensures
            final(self)@ =~= old(self)@.update(
                old(self)@.len() - 1,
                old(self)@.last().insert(key@, Value::Unit),
            ),
    {
        self.bind(key, Value::Unit);
    }

    /// Declares a name with an initial value in the innermost frame.
    pub fn declare_assign(&mut self, key: String, value: Value)
        requires
            old(self)@.len() >= 1,
        ensures
            final(self)@ =~= old(self)@.update(
                old(self)@.len() - 1,
                old(self)@.last().insert(key@, value),
            ),
    {
        self.bind(key, value);
    }

    /// Replaces the binding of a name in the innermost frame that binds
    /// it; a name bound nowhere leaves the store unchanged.
    pub fn assign(&mut self, key: String, value: Value)
        ensures
            final(self)@ =~= mem_assign(old(self)@, key@, value),
    {
        let ghost k = key@;
        let n = self.memory_frame.len();
        let mut i = n;
        proof {
            assert(self@.subrange(0, self@.len() as int) =~= self@);
            lemma_mem_assign_frozen_suffix(self@, self@.len() as int, k, value);
        }
        while i > 0
            invariant
                0 <= i <= n,
                self@ == old(self)@,
                n == self.memory_frame@.len(),
                self@.len() == n,
                mem_assign(self@, k, value) == mem_assign(self@.subrange(0, i as int), k, value)
                    + self@.subrange(i as int, n as int),
                forall|j: int| i <= j < n ==> !(#[trigger] self@[j]).contains_key(k),
                k == key@,
            decreases i,
        {
            i -= 1;
            proof {
                assert(self@.subrange(0, i + 1).last() == self@[i as int]);
                assert(self@.subrange(0, i + 1).drop_last() =~= self@.subrange(0, i as int));
                lemma_value_assoc_get_is_map(self.memory_frame@[i as int]@, k);
            }
            let found = Self::frame_has(&self.memory_frame[i], key.as_str());
            if !found {
                proof {
                    assert(mem_assign(self@.subrange(0, i + 1), k, value) == mem_assign(
                        self@.subrange(0, i as int),
                        k,
                        value,
                    ).push(self@[i as int]));
                    assert(mem_assign(self@.subrange(0, i as int), k, value).push(self@[i as int])
                        + self@.subrange(i + 1, n as int) =~= mem_assign(
                        self@.subrange(0, i as int),
                        k,
                        value,
                    ) + self@.subrange(i as int, n as int));
                }
            }
            if found {
                let ghost oldview = self@;
                let ghost oldframes = self.memory_frame@;
                self.memory_frame[i].push((key, value));
                proof {
                    let of = oldframes[i as int]@;
                    let nf = self.memory_frame@[i as int]@;
                    assert(nf =~= of.push((nf.last().0, nf.last().1)));
                    assert(nf.last().0@ == k && nf.last().1 == value);
                    assert(nf.drop_last() =~= of);
                    assert(value_frame_map(nf) == value_frame_map(of).insert(k, value));
                    assert(self@ =~= oldview.update(i as int, oldview[i as int].insert(k, value)));
                    let pre = oldview.subrange(0, i + 1);
                    assert(pre.last() == oldview[i as int]);
                    assert(mem_assign(pre, k, value) == pre.update(
                        i as int,
                        pre.last().insert(k, value),
                    ));
                    assert(mem_assign(oldview, k, value) =~= self@);
                    assert(final(self)@ =~= mem_assign(old(self)@, k, value));
                }
                return ;
            }
        }
        proof {
            assert(self@.subrange(0, 0) =~= Seq::<Map<Seq<char>, Value>>::empty());
            assert(mem_assign(self@.subrange(0, 0), k, value) =~= Seq::<
                Map<Seq<char>, Value>,
            >::empty());
            assert(self@.subrange(0, n as int) =~= self@);
            assert(mem_assign(self@, k, value) =~= self@);
        }
    }

    /// Whether a single frame binds the name.
    fn frame_has(frame: &Vec<(String, Value)>, key: &str) -> (r: bool)
        ensures
            r == value_frame_map(frame@).contains_key(key@),
    {
        proof {
            lemma_value_assoc_get_is_map(frame@, key@);
        }
        Self::find_in_frame(frame, key).is_some()
    }

    /// Scans a single frame, latest entry first.
    fn find_in_frame(frame: &Vec<(String, Value)>, key: &str) -> (r: Option<Value>)
        ensures
            r == value_assoc_get(frame@, key@),
    {
        let mut j = frame.len();
        proof {
            assert(frame@.subrange(0, frame@.len() as int) =~= frame@);
        }
        while j > 0
            invariant
                0 <= j <= frame@.len(),
                value_assoc_get(frame@, key@) == value_assoc_get(
                    frame@.subrange(0, j as int),
                    key@,
                ),
            decreases j,
        {
            j -= 1;
            let entry = &frame[j];
            proof {
                assert(frame@.subrange(0, j + 1).last() == frame@[j as int]);
                assert(frame@.subrange(0, j + 1).drop_last() =~= frame@.subrange(0, j as int));
            }
            if str_eq(entry.0.as_str(), key) {
                return Some(entry.1);
            }
        }
        proof {
            assert(frame@.subrange(0, 0) =~= Seq::<(String, Value)>::empty());
        }
        None
    }

    /// The value bound to a name, from the innermost frame that binds it.
    pub fn retrieve_val(&self, key: String) -> (r: Option<Value>)
        ensures
            r == mem_lookup(self@, key@),
    {
        let n = self.memory_frame.len();
        let mut i = n;
        proof {
            assert(self@.subrange(0, self@.len() as int) =~= self@);
        }
        while i > 0
            invariant
                0 <= i <= n,
                n == self.memory_frame@.len(),
                mem_lookup(self@, key@) == mem_lookup(self@.subrange(0, i as int), key@),
            decreases i,
        {
            i -= 1;
            proof {
                assert(self@.subrange(0, i + 1).last() == self@[i as int]);
                assert(self@.subrange(0, i + 1).drop_last() =~= self@.subrange(0, i as int));
                lemma_value_assoc_get_is_map(self.memory_frame@[i as int]@, key@);
            }
            let found = Self::find_in_frame(&self.memory_frame[i], key.as_str());
            if let Some(v) = found {
                return Some(v);
            }
        }
        proof {
            assert(self@.subrange(0, 0) =~= Seq::<Map<Seq<char>, Value>>::empty());
        }
        None
    }
}

/// Assigning leaves untouched every frame above the innermost one that
/// binds the name.
proof fn lemma_mem_assign_frozen_suffix(
    m: Seq<Map<Seq<char>, Value>>,
    i: int,
    k: Seq<char>,
    v: Value,
)
    requires
        0 <= i <= m.len(),
        forall|j: int| i <= j < m.len() ==> !(#[trigger] m[j]).contains_key(k),
    ensures
        mem_assign(m, k, v) == mem_assign(m.subrange(0, i), k, v) + m.subrange(i, m.len() as int),
    decreases m.len() - i,
{
    if i == m.len() {
        assert(m.subrange(0, i) =~= m);
        assert(m.subrange(i, m.len() as int) =~= Seq::<Map<Seq<char>, Value>>::empty());
        assert(mem_assign(m, k, v) =~= mem_assign(m.subrange(0, i), k, v) + m.subrange(
            i,
            m.len() as int,
        ));
    } else {
        // peel the last frame: it does not bind k
        let m1 = m.drop_last();
        assert(!m.last().contains_key(k));
        assert(mem_assign(m, k, v) == mem_assign(m1, k, v).push(m.last()));
        lemma_mem_assign_frozen_suffix(m1, i, k, v);
        assert(m1.subrange(0, i) =~= m.subrange(0, i));
        assert(mem_assign(m1, k, v).push(m.last()) =~= mem_assign(m.subrange(0, i), k, v)
            + m.subrange(i, m.len() as int));
    }
}

} // verus!
