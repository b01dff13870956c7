use crate::color::rgba::RGBA;
use crate::text::chars_eq;
use vstd::prelude::*;

verus! {

/// A palette of named colors: each name is held once, with its color.
pub struct Palette {
    names: Vec<Vec<char>>,
    colors: Vec<RGBA>,
}

impl Palette {
    /// Names and colors line up, and no name occurs twice.
    pub closed spec fn wf(&self) -> bool {
        &&& self.names@.len() == self.colors@.len()
        &&& forall|i: int, j: int|
            0 <= i < j < self.names@.len() ==> #[trigger] self.names@[i]@ != #[trigger] self.names@[j]@
    }

    /// Whether `k` is one of the names.
    pub closed spec fn has_name(&self, k: Seq<char>) -> bool {
        exists|i: int| 0 <= i < self.names@.len() && #[trigger] self.names@[i]@ == k
    }

    /// Position of the name `k`.
    pub closed spec fn name_index(&self, k: Seq<char>) -> int {
        choose|i: int| 0 <= i < self.names@.len() && #[trigger] self.names@[i]@ == k
    }

    /// The palette as a map from names to colors.
    pub closed spec fn view(&self) -> Map<Seq<char>, RGBA> {
        Map::new(|k: Seq<char>| self.has_name(k), |k: Seq<char>| self.colors@[self.name_index(k)])
    }

    /// An empty palette.
    pub fn new() -> (p: Palette)
        ensures
            p.wf(),
            p.view() == Map::<Seq<char>, RGBA>::empty(),
    {
        let p = Palette { names: Vec::new(), colors: Vec::new() };
        assert(p.view() == Map::<Seq<char>, RGBA>::empty());
        p
    }

    /// Position of `name` in the palette, if it is there.
    fn position(&self, name: &[char]) -> (r: Option<usize>)
        requires
            self.wf(),
        ensures
            match r {
                Some(i) => i < self.names@.len() && self.names@[i as int]@ == name@,
                None => !self.has_name(name@),
            },
    {
        let mut i: usize = 0;
        while i < self.names.len()
            invariant
                self.wf(),
                i <= self.names@.len(),
                forall|j: int| 0 <= j < i ==> self.names@[j]@ != name@,
            decreases self.names@.len() - i,
        {
            if chars_eq(self.names[i].as_slice(), name) {
                return Some(i);
            }
            i = i + 1;
        }
        None
    }

    /// The color registered under `name`, if any.
    pub fn get(&self, name: &[char]) -> (r: Option<RGBA>)
        requires
            self.wf(),
        ensures
            r == (if self.view().contains_key(name@) {
                Some(self.view()[name@])
            } else {
                None
            }),
    {
        match self.position(name) {
            None => None,
            Some(i) => {
                proof {
                    let k = self.name_index(name@);
                    assert(self.has_name(name@));
                    if k != i {
                        if k < i {
                            assert(self.names@[k]@ != self.names@[i as int]@);
                        } else {
                            assert(self.names@[i as int]@ != self.names@[k]@);
                        }
                    }
                }
                Some(self.colors[i])
            },
        }
    }

    /// Registers `color` under `name`, replacing any color already there.
    pub fn insert_str(&mut self, name: &str, color: RGBA)
        requires
            old(self).wf(),
        ensures
            final(self).wf(),
            final(self).view() == old(self).view().insert(name@, color),
    {
        let chars = crate::text::chars_of(name);
        self.insert(chars.as_slice(), color);
    }

    /// Registers `color` under `name`, replacing any color already there.
    pub fn insert(&mut self, name: &[char], color: RGBA)
        requires
            old(self).wf(),
        ensures
            final(self).wf(),
            final(self).view() == old(self).view().insert(name@, color),
    {
        match self.position(name) {
            Some(i) => {
                self.colors.set(i, color);
                proof {
                    assert forall|k: Seq<char>| #[trigger] self.has_name(k) == old(self).has_name(k) by {
                        if old(self).has_name(k) {
                            let j = old(self).name_index(k);
                            assert(self.names@[j]@ == k);
                        }
                        if self.has_name(k) {
                            let j = self.name_index(k);
                            assert(old(self).names@[j]@ == k);
                        }
                    }
                    assert forall|k: Seq<char>| self.has_name(k) implies #[trigger] self.view()[k]
                        == old(self).view().insert(name@, color)[k] by {
                        let j = self.name_index(k);
                        if k == name@ {
                            if j != i {
                                if j < i {
                                    assert(self.names@[j]@ != self.names@[i as int]@);
                                } else {
                                    assert(self.names@[i as int]@ != self.names@[j]@);
                                }
                            }
                        } else {
                            let j0 = old(self).name_index(k);
                            assert(old(self).names@[j0]@ == k);
                            if j != j0 {
                                if j < j0 {
                                    assert(self.names@[j]@ != self.names@[j0]@);
                                } else {
                                    assert(self.names@[j0]@ != self.names@[j]@);
                                }
                            }
                            assert(j != i);
                        }
                    }
                    assert(self.view() =~= old(self).view().insert(name@, color));
                }
            },
            None => {
                let mut owned: Vec<char> = Vec::new();
                let mut n: usize = 0;
                while n < name.len()
                    invariant
                        n <= name@.len(),
                        owned@ == name@.take(n as int),
                    decreases name@.len() - n,
                {
                    owned.push(name[n]);
                    assert(name@.take(n as int).push(name@[n as int]) == name@.take(n + 1));
                    n = n + 1;
                }
                assert(name@.take(name@.len() as int) == name@);
                let ghost old_names = self.names@;
                self.names.push(owned);
                self.colors.push(color);
                proof {
                    let last = old_names.len() as int;
                    assert(self.names@[last]@ == name@);
                    assert forall|i: int, j: int|
                        0 <= i < j < self.names@.len() implies #[trigger] self.names@[i]@
                        != #[trigger] self.names@[j]@ by {
                        if j == last {
                            assert(self.names@[i] == old_names[i]);
                            assert(old(self).names@[i]@ != name@);
                        } else {
                            assert(self.names@[i] == old_names[i]);
                            assert(self.names@[j] == old_names[j]);
                        }
                    }
                    assert forall|k: Seq<char>| #[trigger] self.has_name(k) == (old(self).has_name(k)
                        || k == name@) by {
                        if old(self).has_name(k) {
                            let j = old(self).name_index(k);
                            assert(self.names@[j] == old_names[j]);
                        }
                        if self.has_name(k) && k != name@ {
                            let j = self.name_index(k);
                            assert(j != last);
                            assert(self.names@[j] == old_names[j]);
                        }
                        if k == name@ {
                            assert(self.names@[last]@ == k);
                        }
                    }
                    assert forall|k: Seq<char>| self.has_name(k) implies #[trigger] self.view()[k]
                        == old(self).view().insert(name@, color)[k] by {
                        let j = self.name_index(k);
                        if k == name@ {
                            if j != last {
                                assert(self.names@[j] == old_names[j]);
                            }
                        } else {
                            let j0 = old(self).name_index(k);
                            assert(old(self).names@[j0]@ == k);
                            assert(self.names@[j0] == old_names[j0]);
                            if j != j0 {
                                if j < j0 {
                                    assert(self.names@[j]@ != self.names@[j0]@);
                                } else {
                                    assert(self.names@[j0]@ != self.names@[j]@);
                                }
                            }
                        }
                    }
                    assert(self.view() =~= old(self).view().insert(name@, color));
                }
            },
        }
    }
}

} // verus!
