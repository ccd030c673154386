//! A table keyed by text, as the JSON databases of cases and repertorios are.
//!
//! The table keeps its entries in the order they were first stored; its view
//! is the map from key to value.

use vstd::prelude::*;

verus! {

/// The map that a list of distinct keys and their values stand for.
pub open spec fn mapa_de<V>(e: Seq<(Seq<char>, V)>) -> Map<Seq<char>, V>
    decreases e.len(),
{
    if e.len() == 0 {
        Map::empty()
    } else {
        mapa_de(e.drop_last()).insert(e.last().0, e.last().1)
    }
}

/// No key occurs twice.
pub open spec fn claves_distintas<V>(e: Seq<(Seq<char>, V)>) -> bool {
    forall|i: int, j: int| 0 <= i < j < e.len() ==> #[trigger] e[i].0 != #[trigger] e[j].0
}

/// In a list of distinct keys, the map holds exactly the listed keys, each
/// with the value listed beside it, and as many keys as entries.
pub proof fn lema_mapa_de<V>(e: Seq<(Seq<char>, V)>)
    requires
        claves_distintas(e),
    ensures
        forall|k: Seq<char>|
            #[trigger] mapa_de(e).contains_key(k) <==> exists|i: int|
                0 <= i < e.len() && #[trigger] e[i].0 == k,
        forall|i: int| 0 <= i < e.len() ==> #[trigger] mapa_de(e)[e[i].0] == e[i].1,
        mapa_de(e).dom().finite(),
        mapa_de(e).dom().len() == e.len(),
    decreases e.len(),
{
    if e.len() > 0 {
        let p = e.drop_last();
        assert(claves_distintas(p)) by {
            assert forall|i: int, j: int| 0 <= i < j < p.len() implies #[trigger] p[i].0
                != #[trigger] p[j].0 by {
                assert(p[i] == e[i] && p[j] == e[j]);
            }
        }
        lema_mapa_de(p);
        let ult = e.last();
        assert(!mapa_de(p).contains_key(ult.0)) by {
            if mapa_de(p).contains_key(ult.0) {
                let i = choose|i: int| 0 <= i < p.len() && #[trigger] p[i].0 == ult.0;
                assert(e[i].0 == e[e.len() - 1].0);
            }
        }
        assert forall|k: Seq<char>| #[trigger] mapa_de(e).contains_key(k) <==> exists|i: int|
            0 <= i < e.len() && #[trigger] e[i].0 == k by {
            if mapa_de(e).contains_key(k) {
                if k == ult.0 {
                    assert(e[e.len() - 1].0 == k);
                } else {
                    let i = choose|i: int| 0 <= i < p.len() && #[trigger] p[i].0 == k;
                    assert(e[i].0 == k);
                }
            }
            if exists|i: int| 0 <= i < e.len() && #[trigger] e[i].0 == k {
                let i = choose|i: int| 0 <= i < e.len() && #[trigger] e[i].0 == k;
                if i < e.len() - 1 {
                    assert(p[i].0 == k);
                }
            }
        }
        assert forall|i: int| 0 <= i < e.len() implies #[trigger] mapa_de(e)[e[i].0] == e[i].1 by {
            if i < e.len() - 1 {
                assert(p[i] == e[i]);
                assert(e[i].0 != ult.0);
            }
        }
    }
}

/// A table from text keys to values.
pub struct Tabla<V> {
    entradas: Vec<(String, V)>,
}

impl<V> Tabla<V> {
    /// The entries, keys by their text, in storage order.
    pub closed spec fn entradas_v(&self) -> Seq<(Seq<char>, V)> {
        self.entradas@.map_values(|e: (String, V)| (e.0@, e.1))
    }

    #[verifier::type_invariant]
    closed spec fn bien_formada(&self) -> bool {
        claves_distintas(self.entradas_v())
    }

    /// The table's entries are distinct keys with their values (a check
    /// that does nothing at run time).
    pub fn propiedades(&self)
        ensures
            claves_distintas(self.entradas_v()),
            self@ == mapa_de(self.entradas_v()),
    {
        proof {
            use_type_invariant(self);
        }
    }

    /// An empty table.
    pub fn nueva() -> (r: Tabla<V>)
        ensures
            r@ == Map::<Seq<char>, V>::empty(),
            r.entradas_v().len() == 0,
    {
        let r = Tabla { entradas: Vec::new() };
        assert(r.entradas_v() =~= Seq::empty());
        r
    }

    /// The number of entries.
    pub fn len(&self) -> (n: usize)
        ensures
            n == self.entradas_v().len(),
            n == self@.dom().len(),
    {
        proof {
            use_type_invariant(self);
            lema_mapa_de(self.entradas_v());
        }
        self.entradas.len()
    }

    /// Key of the `i`-th stored entry.
    pub fn clave_en(&self, i: usize) -> (r: &String)
        requires
            i < self.entradas_v().len(),
        ensures
            r@ == self.entradas_v()[i as int].0,
    {
        &self.entradas[i].0
    }

    /// Value of the `i`-th stored entry.
    pub fn valor_en(&self, i: usize) -> (r: &V)
        requires
            i < self.entradas_v().len(),
        ensures
            *r == self.entradas_v()[i as int].1,
    {
        &self.entradas[i].1
    }

    fn posicion(&self, k: &str) -> (r: Option<usize>)
        ensures
            match r {
                Some(i) => i < self.entradas_v().len() && self.entradas_v()[i as int].0 == k@,
                None => forall|i: int|
                    0 <= i < self.entradas_v().len() ==> #[trigger] self.entradas_v()[i].0 != k@,
            },
    {
        let clave = k.to_owned();
        let mut i: usize = 0;
        while i < self.entradas.len()
            invariant
                i <= self.entradas@.len(),
                clave@ == k@,
                forall|j: int| 0 <= j < i ==> #[trigger] self.entradas_v()[j].0 != k@,
            decreases self.entradas@.len() - i,
        {
            if self.entradas[i].0 == clave {
                return Some(i);
            }
            i = i + 1;
        }
        None
    }

    /// The value stored under `k`, if any.
    pub fn obtener(&self, k: &str) -> (r: Option<&V>)
        ensures
            match r {
                Some(v) => self@.contains_key(k@) && *v == self@[k@],
                None => !self@.contains_key(k@),
            },
    {
        proof {
            use_type_invariant(self);
            lema_mapa_de(self.entradas_v());
        }
        match self.posicion(k) {
            Some(i) => Some(&self.entradas[i].1),
            None => None,
        }
    }

    /// Whether a value is stored under `k`.
    pub fn contiene(&self, k: &str) -> (r: bool)
        ensures
            r == self@.contains_key(k@),
    {
        self.obtener(k).is_some()
    }

    /// Stores `v` under `k`, replacing what was stored there.
    pub fn insertar(&mut self, k: String, v: V)
        ensures
            final(self)@ == old(self)@.insert(k@, v),
            old(self)@.contains_key(k@) ==> final(self).entradas_v().len()
                == old(self).entradas_v().len(),
            !old(self)@.contains_key(k@) ==> final(self).entradas_v() == old(
                self,
            ).entradas_v().push((k@, v)),
    {
        proof {
            use_type_invariant(&*self);
            lema_mapa_de(self.entradas_v());
        }
        let ghost antes = self.entradas_v();
        match self.posicion(k.as_str()) {
            Some(i) => {
                let ghost nuevas = antes.update(i as int, (k@, v));
                assert(claves_distintas(nuevas)) by {
                    assert forall|a: int, b: int| 0 <= a < b < nuevas.len() implies #[trigger] nuevas[a].0
                        != #[trigger] nuevas[b].0 by {
                        assert(antes[a].0 != antes[b].0);
                    }
                }
                let mut entradas: Vec<(String, V)> = Vec::new();
                std::mem::swap(&mut entradas, &mut self.entradas);
                entradas.set(i, (k, v));
                assert(entradas@.map_values(|e: (String, V)| (e.0@, e.1)) =~= nuevas);
                self.entradas = entradas;
                proof {
                    lema_mapa_de(nuevas);
                    lema_mapa_de(antes);
                    assert(self@ =~= old(self)@.insert(k@, v)) by {
                        assert forall|q: Seq<char>| #[trigger] self@.contains_key(q)
                            == old(self)@.insert(k@, v).contains_key(q) by {
                            if self@.contains_key(q) {
                                let j = choose|j: int| 0 <= j < nuevas.len() && #[trigger] nuevas[j].0 == q;
                                if j != i {
                                    assert(antes[j].0 == q);
                                }
                            }
                            if old(self)@.contains_key(q) && q != k@ {
                                let j = choose|j: int| 0 <= j < antes.len() && #[trigger] antes[j].0 == q;
                                assert(j != i);
                                assert(nuevas[j] == antes[j]);
                                assert(nuevas[j].0 == q);
                            }
                            if q == k@ {
                                assert(nuevas[i as int].0 == q);
                            }
                        }
                        assert forall|q: Seq<char>| #[trigger] self@.contains_key(q) implies self@[q]
                            == old(self)@.insert(k@, v)[q] by {
                            let j = choose|j: int| 0 <= j < nuevas.len() && #[trigger] nuevas[j].0 == q;
                            if j != i {
                                assert(antes[j] == nuevas[j]);
                            }
                        }
                    }
                }
            },
            None => {
                let ghost nuevas = antes.push((k@, v));
                assert(claves_distintas(nuevas)) by {
                    assert forall|a: int, b: int| 0 <= a < b < nuevas.len() implies #[trigger] nuevas[a].0
                        != #[trigger] nuevas[b].0 by {
                        if b < antes.len() {
                            assert(antes[a].0 != antes[b].0);
                        }
                    }
                }
                let mut entradas: Vec<(String, V)> = Vec::new();
                std::mem::swap(&mut entradas, &mut self.entradas);
                entradas.push((k, v));
                assert(entradas@.map_values(|e: (String, V)| (e.0@, e.1)) =~= nuevas);
                self.entradas = entradas;
                assert(nuevas.drop_last() == antes);
            },
        }
    }

    /// Removes what is stored under `k` and returns it.
    pub fn quitar(&mut self, k: &str) -> (r: Option<V>)
        ensures
            final(self)@ == old(self)@.remove(k@),
            match r {
                Some(v) => old(self)@.contains_key(k@) && v == old(self)@[k@],
                None => !old(self)@.contains_key(k@),
            },
    {
        proof {
            use_type_invariant(&*self);
            lema_mapa_de(self.entradas_v());
        }
        let ghost antes = self.entradas_v();
        match self.posicion(k) {
            Some(i) => {
                let ghost nuevas = antes.remove(i as int);
                assert(claves_distintas(nuevas)) by {
                    assert forall|a: int, b: int| 0 <= a < b < nuevas.len() implies #[trigger] nuevas[a].0
                        != #[trigger] nuevas[b].0 by {
                        let a2 = if a < i { a } else { a + 1 };
                        let b2 = if b < i { b } else { b + 1 };
                        assert(nuevas[a] == antes[a2] && nuevas[b] == antes[b2]);
                        assert(antes[a2].0 != antes[b2].0);
                    }
                }
                let mut entradas: Vec<(String, V)> = Vec::new();
                std::mem::swap(&mut entradas, &mut self.entradas);
                let (_, v) = entradas.remove(i);
                assert(entradas@.map_values(|e: (String, V)| (e.0@, e.1)) =~= nuevas);
                self.entradas = entradas;
                proof {
                    lema_mapa_de(nuevas);
                    assert(self@ =~= old(self)@.remove(k@)) by {
                        assert forall|q: Seq<char>| #[trigger] self@.contains_key(q)
                            == old(self)@.remove(k@).contains_key(q) by {
                            if self@.contains_key(q) {
                                let j = choose|j: int| 0 <= j < nuevas.len() && #[trigger] nuevas[j].0 == q;
                                let j2 = if j < i { j } else { j + 1 };
                                assert(antes[j2].0 == q);
                                assert(antes[j2].0 != antes[i as int].0);
                            }
                            if old(self)@.contains_key(q) && q != k@ {
                                let j = choose|j: int| 0 <= j < antes.len() && #[trigger] antes[j].0 == q;
                                let j2 = if j < i { j } else { j - 1 };
                                assert(nuevas[j2].0 == q);
                            }
                        }
                        assert forall|q: Seq<char>| #[trigger] self@.contains_key(q) implies self@[q]
                            == old(self)@.remove(k@)[q] by {
                            let j = choose|j: int| 0 <= j < nuevas.len() && #[trigger] nuevas[j].0 == q;
                            let j2 = if j < i { j } else { j + 1 };
                            assert(nuevas[j] == antes[j2]);
                        }
                    }
                }
                Some(v)
            },
            None => {
                assert(old(self)@.remove(k@) =~= old(self)@);
                None
            },
        }
    }
}

impl<V> View for Tabla<V> {
    type V = Map<Seq<char>, V>;

    closed spec fn view(&self) -> Map<Seq<char>, V> {
        mapa_de(self.entradas_v())
    }
}

} // verus!
