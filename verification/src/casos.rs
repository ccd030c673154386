//! The database of signing cases (`casos.json`): lookups, insertion,
//! removal and the listing ordered by number.

use vstd::prelude::*;

use crate::modelos::Caso;
use crate::tabla::Tabla;
use crate::texto::{
    analizar_natural, analizar_u64, caracteres, digitos_de, iguales, recortado, recortar,
    solo_digitos, texto_de,
};

verus! {

/// The cases, keyed by their number.
pub type BaseCasos = Tabla<Caso>;

/// What a map holds under `k`, if anything.
pub open spec fn consulta<V>(m: Map<Seq<char>, V>, k: Seq<char>) -> Option<V> {
    if m.contains_key(k) {
        Some(m[k])
    } else {
        None
    }
}

/// The key that orders the listing: the number read as `u64`, 0 when it is
/// not a number.
pub open spec fn clave_orden(c: Caso) -> nat {
    match analizar_natural(c.numero@, 18446744073709551615) {
        Some(v) => v,
        None => 0,
    }
}

/// The values of a list of entries, in order.
pub open spec fn valores<V>(e: Seq<(Seq<char>, V)>) -> Seq<V> {
    e.map_values(|x: (Seq<char>, V)| x.1)
}

/// The case stored under exactly this number.
pub fn buscar_caso(bd: &BaseCasos, numero: &str) -> (r: Option<Caso>)
    ensures
        r == consulta(bd@, numero@),
{
    match bd.obtener(numero) {
        Some(c) => Some(c.clone()),
        None => None,
    }
}

/// Stores a case under its number, replacing an earlier case with that number.
pub fn agregar_caso(bd: &mut BaseCasos, caso: Caso)
    ensures
        final(bd)@ == old(bd)@.insert(caso.numero@, caso),
{
    let clave = caso.numero.clone();
    bd.insertar(clave, caso);
}

/// Removes the case with this number; tells whether there was one.
pub fn eliminar_caso(bd: &mut BaseCasos, numero: &str) -> (r: bool)
    ensures
        r == old(bd)@.contains_key(numero@),
        final(bd)@ == old(bd)@.remove(numero@),
{
    bd.quitar(numero).is_some()
}

/// The case stored under the number once it is trimmed.
pub fn buscar_caso_interno(bd: &BaseCasos, numero: &str) -> (r: Option<Caso>)
    ensures
        r == consulta(bd@, recortar(numero@)),
{
    let v = caracteres(numero);
    let t = texto_de(&recortado(&v));
    buscar_caso(bd, t.as_str())
}

/// What a flexible lookup of `numero` may give: the case stored under the
/// trimmed number; failing that, nothing exactly when no stored case has
/// the same digits, else one of those that have.
pub open spec fn flexible_caso(m: Map<Seq<char>, Caso>, numero: Seq<char>, r: Option<Caso>) -> bool {
    let clave = recortar(numero);
    if m.contains_key(clave) {
        r == Some(m[clave])
    } else {
        &&& r is None <==> forall|k: Seq<char>|
            #[trigger] m.contains_key(k) ==> solo_digitos(m[k].numero@) != solo_digitos(clave)
        &&& r matches Some(c) ==> exists|k: Seq<char>|
            #[trigger] m.contains_key(k) && m[k] == c && solo_digitos(c.numero@) == solo_digitos(
                clave,
            )
    }
}

/// Flexible lookup: the case stored under the trimmed number; failing that,
/// a case whose number has the same digits (so "3.090" finds "3090").
pub fn buscar_caso_flexible(bd: &BaseCasos, numero: &str) -> (r: Option<Caso>)
    ensures
        flexible_caso(bd@, numero@, r),
{
    let v = caracteres(numero);
    let clave_v = recortado(&v);
    let clave = texto_de(&clave_v);
    if let Some(c) = bd.obtener(clave.as_str()) {
        return Some(c.clone());
    }
    let norm = digitos_de(&clave_v);
    bd.propiedades();
    proof {
        crate::tabla::lema_mapa_de(bd.entradas_v());
    }
    let n = bd.len();
    let mut i: usize = 0;
    while i < n
        invariant
            n == bd.entradas_v().len(),
            i <= n,
            norm@ == solo_digitos(recortar(numero@)),
            !bd@.contains_key(recortar(numero@)),
            bd@ == crate::tabla::mapa_de(bd.entradas_v()),
            crate::tabla::claves_distintas(bd.entradas_v()),
            forall|j: int|
                0 <= j < i ==> solo_digitos(#[trigger] bd.entradas_v()[j].1.numero@) != norm@,
        decreases n - i,
    {
        let c = bd.valor_en(i);
        let dc = digitos_de(&caracteres(c.numero.as_str()));
        if iguales(&dc, &norm) {
            proof {
                crate::tabla::lema_mapa_de(bd.entradas_v());
                let k = bd.entradas_v()[i as int].0;
                assert(bd@.contains_key(k) && bd@[k] == *c);
            }
            return Some(c.clone());
        }
        i = i + 1;
    }
    proof {
        crate::tabla::lema_mapa_de(bd.entradas_v());
        assert forall|k: Seq<char>| #[trigger] bd@.contains_key(k) implies solo_digitos(
            bd@[k].numero@,
        ) != norm@ by {
            let j = choose|j: int| 0 <= j < bd.entradas_v().len() && #[trigger] bd.entradas_v()[j].0 == k;
            assert(bd@[k] == bd.entradas_v()[j].1);
        }
    }
    None
}

fn clave_orden_exec(c: &Caso) -> (r: u64)
    ensures
        r as nat == clave_orden(*c),
{
    match analizar_u64(c.numero.as_str()) {
        Some(v) => v,
        None => 0,
    }
}

/// All stored cases, ordered by their number read as an integer (a number
/// that does not read as one counts as 0).
pub fn listar_casos(bd: &BaseCasos) -> (r: Vec<Caso>)
    ensures
        r@.to_multiset() == valores(bd.entradas_v()).to_multiset(),
        r@.len() == bd@.dom().len(),
        forall|i: int, j: int|
            0 <= i < j < r@.len() ==> clave_orden(#[trigger] r@[i]) <= clave_orden(#[trigger] r@[j]),
{
    bd.propiedades();
    proof {
        crate::tabla::lema_mapa_de(bd.entradas_v());
    }
    let ghost vals = valores(bd.entradas_v());
    let n = bd.len();
    let mut r: Vec<Caso> = Vec::new();
    let mut claves: Vec<u64> = Vec::new();
    let mut i: usize = 0;
    assert(r@ =~= vals.take(0));
    while i < n
        invariant
            n == bd.entradas_v().len(),
            vals == valores(bd.entradas_v()),
            i <= n,
            r@.len() == i,
            claves@.len() == i,
            forall|k: int| 0 <= k < i ==> claves@[k] as nat == clave_orden(#[trigger] r@[k]),
            r@.to_multiset() == vals.take(i as int).to_multiset(),
            forall|a: int, b: int|
                0 <= a < b < r@.len() ==> clave_orden(#[trigger] r@[a]) <= clave_orden(
                    #[trigger] r@[b],
                ),
        decreases n - i,
    {
        let c = bd.valor_en(i).clone();
        let k = clave_orden_exec(&c);
        let mut p: usize = 0;
        while p < r.len() && claves[p] <= k
            invariant
                p <= r@.len(),
                r@.len() == claves@.len(),
                forall|q: int| 0 <= q < claves@.len() ==> claves@[q] as nat == clave_orden(
                    #[trigger] r@[q],
                ),
                forall|q: int| 0 <= q < p ==> clave_orden(#[trigger] r@[q]) <= k,
            decreases r@.len() - p,
        {
            p = p + 1;
        }
        let ghost r0 = r@;
        proof {
            if p < r0.len() {
                assert(clave_orden(r0[p as int]) > k);
                assert forall|q: int| p <= q < r0.len() implies clave_orden(#[trigger] r0[q]) > k by {
                    if q > p {
                        assert(clave_orden(r0[p as int]) <= clave_orden(r0[q]));
                    }
                }
            }
        }
        r.insert(p, c);
        claves.insert(p, k);
        proof {
            assert(vals.take(i + 1) == vals.take(i as int).push(vals[i as int]));
            assert(vals[i as int] == c);
            assert(r@ == r0.insert(p as int, c));
            vstd::seq_lib::to_multiset_insert(r0, p as int, c);
            vstd::seq_lib::to_multiset_build(vals.take(i as int), c);
            assert(vals.take(i as int).push(c).to_multiset() == vals.take(
                i as int,
            ).to_multiset().insert(c));
            assert(r@.to_multiset() == r0.to_multiset().insert(c));
            assert forall|q: int| 0 <= q < claves@.len() implies claves@[q] as nat == clave_orden(
                #[trigger] r@[q],
            ) by {
                if q < p {
                    assert(r@[q] == r0[q]);
                } else if q > p {
                    assert(r@[q] == r0[q - 1]);
                }
            }
            assert forall|a: int, b: int| 0 <= a < b < r@.len() implies clave_orden(
                #[trigger] r@[a],
            ) <= clave_orden(#[trigger] r@[b]) by {
                let a0 = if a < p { a } else { a - 1 };
                let b0 = if b <= p { b } else { b - 1 };
                if a == p {
                    assert(r@[a] == c);
                    assert(r@[b] == r0[b - 1]);
                } else if b == p {
                    assert(r@[b] == c);
                    assert(r@[a] == r0[a]);
                } else {
                    assert(r@[a] == r0[a0]);
                    assert(r@[b] == r0[b0]);
                    assert(a0 < b0);
                }
            }
        }
        i = i + 1;
    }
    assert(vals.take(n as int) == vals);
    r
}

// ─── Laws ────────────────────────────────────────────────────────────────────

/// After a case is added, looking its number up gives that case, and every
/// other number gives what it gave before.
pub proof fn ley_agregar_luego_buscar(bd: Map<Seq<char>, Caso>, caso: Caso, otro: Seq<char>)
    ensures
        consulta(bd.insert(caso.numero@, caso), caso.numero@) == Some(caso),
        otro != caso.numero@ ==> consulta(bd.insert(caso.numero@, caso), otro) == consulta(
            bd,
            otro,
        ),
{
}

/// After a case is removed, looking its number up gives nothing, and every
/// other number gives what it gave before.
pub proof fn ley_eliminar_luego_buscar(bd: Map<Seq<char>, Caso>, numero: Seq<char>, otro: Seq<char>)
    ensures
        consulta(bd.remove(numero), numero) is None,
        otro != numero ==> consulta(bd.remove(numero), otro) == consulta(bd, otro),
{
}

/// The flexible lookup finds a stored number given exactly.
pub proof fn ley_flexible_exacta(bd: Map<Seq<char>, Caso>, numero: Seq<char>)
    requires
        bd.contains_key(recortar(numero)),
    ensures
        consulta(bd, recortar(numero)) == Some(bd[recortar(numero)]),
{
}

} // verus!
