//! The historical repertorio database (`repertorios.json`) and its import
//! from the notary's spreadsheets.

use vstd::prelude::*;

use crate::casos::consulta;
use crate::fechas::{fecha_desde_serial, fecha_excel, MAX_DIAS};
use crate::modelos::{Celda, Duplicado, DuplicadoV, Registro, RegistroV};
use crate::tabla::Tabla;
use crate::texto::{
    anexar, anexar_entero, anexar_str, caracteres, contiene, contiene_exec, contiene_str,
    decimal_con_signo, digitos_de, es_espacio, es_literal, espacio, iguales, minusculas,
    minusculas_de, recortado, recortar, solo_digitos, texto_de, tramo, unir, unir_textos,
};

verus! {

/// The repertorios, keyed by their number.
pub type BaseRepertorios = Tabla<Registro>;

/// The database with each entry given by its text.
pub open spec fn vista_base(m: Map<Seq<char>, Registro>) -> Map<Seq<char>, RegistroV> {
    m.map_values(|r: Registro| r@)
}

// ─── Cells ───────────────────────────────────────────────────────────────────

/// The text of a cell: numbers as integers, text trimmed, booleans as
/// `true`/`false`, anything else empty.
pub open spec fn texto_de_celda(c: Celda) -> Seq<char> {
    match c {
        Celda::Decimal { truncado, menor_que_uno } => decimal_con_signo(truncado as int),
        Celda::Entero(i) => decimal_con_signo(i as int),
        Celda::Texto(s) => recortar(s@),
        Celda::Logico(b) => if b {
            "true"@
        } else {
            "false"@
        },
        _ => Seq::empty(),
    }
}

/// The characters of `s` up to its first white space.
pub open spec fn hasta_espacio(s: Seq<char>) -> Seq<char>
    decreases s.len(),
{
    if s.len() == 0 || espacio(s[0]) {
        Seq::empty()
    } else {
        seq![s[0]] + hasta_espacio(s.drop_first())
    }
}

/// The first word of `s` (`split_whitespace().next()`), empty if none.
pub open spec fn primera_palabra(s: Seq<char>) -> Seq<char> {
    hasta_espacio(crate::texto::recortar_inicio(s))
}

/// A cell whose date reading stays within what chrono accepts.
pub open spec fn fecha_representable(c: Celda) -> bool {
    match c {
        Celda::Decimal { truncado, menor_que_uno } => menor_que_uno || -MAX_DIAS <= truncado <= MAX_DIAS,
        Celda::Entero(i) => i < 1 || i <= MAX_DIAS,
        _ => true,
    }
}

/// The date of a cell: the first word of a text, the Excel serial of a
/// number from 1 on, empty otherwise.
pub open spec fn fecha_de_celda(c: Celda) -> Seq<char> {
    match c {
        Celda::Texto(s) => primera_palabra(s@),
        Celda::Decimal { truncado, menor_que_uno } => if menor_que_uno {
            Seq::empty()
        } else {
            fecha_excel(truncado as int)
        },
        Celda::Entero(i) => if i < 1 {
            Seq::empty()
        } else {
            fecha_excel(i as int)
        },
        _ => Seq::empty(),
    }
}

/// The text of a cell as the repertorio import reads it.
pub fn celda_como_str(c: &Celda) -> (r: String)
    ensures
        r@ == texto_de_celda(*c),
{
    match c {
        Celda::Decimal { truncado, menor_que_uno: _ } => {
            let mut v: Vec<char> = Vec::new();
            anexar_entero(&mut v, *truncado);
            texto_de(&v)
        },
        Celda::Entero(i) => {
            let mut v: Vec<char> = Vec::new();
            anexar_entero(&mut v, *i);
            texto_de(&v)
        },
        Celda::Texto(s) => texto_de(&recortado(&caracteres(s.as_str()))),
        Celda::Logico(b) => if *b {
            "true".to_owned()
        } else {
            "false".to_owned()
        },
        _ => String::new(),
    }
}

proof fn lema_hasta_espacio(s: Seq<char>, k: int)
    requires
        0 <= k <= s.len(),
        forall|j: int| 0 <= j < k ==> !espacio(s[j]),
        k == s.len() || espacio(s[k]),
    ensures
        hasta_espacio(s) == s.take(k),
    decreases k,
{
    if k > 0 {
        assert forall|j: int| 0 <= j < k - 1 implies !espacio(s.drop_first()[j]) by {
            assert(s.drop_first()[j] == s[j + 1]);
        }
        if k < s.len() {
            assert(s.drop_first()[k - 1] == s[k]);
        }
        lema_hasta_espacio(s.drop_first(), k - 1);
        assert(seq![s[0]] + s.drop_first().take(k - 1) =~= s.take(k));
    } else {
        assert(s.take(0) =~= Seq::<char>::empty());
    }
}

fn primera_palabra_exec(s: &String) -> (r: String)
    ensures
        r@ == primera_palabra(s@),
{
    let v = caracteres(s.as_str());
    let mut i: usize = 0;
    assert(v@.skip(0) == v@);
    while i < v.len() && es_espacio(v[i])
        invariant
            i <= v.len(),
            crate::texto::recortar_inicio(v@) == crate::texto::recortar_inicio(v@.skip(i as int)),
        decreases v.len() - i,
    {
        assert(v@.skip(i as int).drop_first() == v@.skip(i + 1));
        i = i + 1;
    }
    let ghost t = v@.skip(i as int);
    assert(crate::texto::recortar_inicio(t) == t);
    let mut j: usize = i;
    while j < v.len() && !es_espacio(v[j])
        invariant
            i <= j <= v.len(),
            t == v@.skip(i as int),
            forall|q: int| 0 <= q < j - i ==> !espacio(t[q]),
        decreases v.len() - j,
    {
        j = j + 1;
    }
    proof {
        lema_hasta_espacio(t, j - i);
    }
    let w = tramo(&v, i, j);
    assert(w@ == t.take(j - i));
    texto_de(&w)
}

/// The date of a cell as the repertorio import reads it.
pub fn celda_como_fecha(c: &Celda) -> (r: String)
    requires
        fecha_representable(*c),
    ensures
        r@ == fecha_de_celda(*c),
{
    match c {
        Celda::Texto(s) => primera_palabra_exec(s),
        Celda::Decimal { truncado, menor_que_uno } => {
            if *menor_que_uno {
                String::new()
            } else {
                fecha_desde_serial(*truncado)
            }
        },
        Celda::Entero(i) => {
            if *i < 1 {
                String::new()
            } else {
                fecha_desde_serial(*i)
            }
        },
        _ => String::new(),
    }
}

// ─── Compareciente ───────────────────────────────────────────────────────────

/// A line break character.
pub open spec fn es_salto(c: char) -> bool {
    c == '\n' || c == '\r'
}

/// The pieces of `s` between line break characters (`split(['\n', '\r'])`).
pub open spec fn trozos(s: Seq<char>) -> Seq<Seq<char>>
    decreases s.len(),
{
    if s.len() == 0 {
        seq![Seq::empty()]
    } else {
        let t = trozos(s.drop_last());
        if es_salto(s.last()) {
            t.push(Seq::empty())
        } else {
            t.drop_last().push(t.last().push(s.last()))
        }
    }
}

/// A line that names a compareciente: not blank, and neither AUTOFIN nor
/// GLOBAL SOLUCIONES in any case.
pub open spec fn linea_valida(l: Seq<char>) -> bool {
    let t = recortar(l);
    &&& t.len() > 0
    &&& !contiene(minusculas(t), "autofin"@)
    &&& !contiene(minusculas(t), "global soluciones"@)
}

/// The first valid line, trimmed, or an empty text.
pub open spec fn primera_valida(ls: Seq<Seq<char>>) -> Seq<char>
    decreases ls.len(),
{
    if ls.len() == 0 {
        Seq::empty()
    } else if linea_valida(ls[0]) {
        recortar(ls[0])
    } else {
        primera_valida(ls.drop_first())
    }
}

proof fn lema_trozos_no_vacio(s: Seq<char>)
    ensures
        trozos(s).len() >= 1,
    decreases s.len(),
{
    if s.len() > 0 {
        lema_trozos_no_vacio(s.drop_last());
    }
}

proof fn lema_primera_valida_salta(a: Seq<Seq<char>>, b: Seq<Seq<char>>)
    requires
        forall|i: int| 0 <= i < a.len() ==> !linea_valida(#[trigger] a[i]),
    ensures
        primera_valida(a + b) == primera_valida(b),
    decreases a.len(),
{
    if a.len() > 0 {
        assert((a + b)[0] == a[0]);
        assert((a + b).drop_first() == a.drop_first() + b);
        assert forall|i: int| 0 <= i < a.drop_first().len() implies !linea_valida(
            #[trigger] a.drop_first()[i],
        ) by {
            assert(a.drop_first()[i] == a[i + 1]);
        }
        lema_primera_valida_salta(a.drop_first(), b);
    } else {
        assert(a + b == b);
    }
}

fn linea_valida_exec(l: &Vec<char>) -> (r: (bool, Vec<char>))
    ensures
        r.0 == linea_valida(l@),
        r.1@ == recortar(l@),
{
    let t = recortado(l);
    if t.len() == 0 {
        return (false, t);
    }
    let lc = minusculas_de(&t);
    let ok = !contiene_str(&lc, "autofin") && !contiene_str(&lc, "global soluciones");
    (ok, t)
}

/// The compareciente of a cell that lists the parties one per line: the
/// first non-blank line that names neither AUTOFIN nor GLOBAL SOLUCIONES,
/// trimmed; empty when there is none.
pub fn extraer_compareciente(texto: &str) -> (r: String)
    ensures
        r@ == primera_valida(trozos(texto@)),
{
    let v = caracteres(texto);
    let ghost mut hechos: Seq<Seq<char>> = Seq::empty();
    let mut actual: Vec<char> = Vec::new();
    let mut i: usize = 0;
    while i < v.len()
        invariant
            i <= v.len(),
            v@ == texto@,
            trozos(v@.take(i as int)) == hechos.push(actual@),
            forall|k: int| 0 <= k < hechos.len() ==> !linea_valida(#[trigger] hechos[k]),
        decreases v.len() - i,
    {
        let c = v[i];
        let ghost pre = v@.take(i + 1);
        assert(pre.drop_last() == v@.take(i as int));
        assert(pre.last() == c);
        if c == '\n' || c == '\r' {
            let (ok, t) = linea_valida_exec(&actual);
            if ok {
                proof {
                    lema_trozos_no_vacio(v@);
                    // the rest of the text splits into the current line's tail
                    // and further lines; the current line is the first valid one
                    let resto = v@.skip(i as int);
                    assert(v@ == v@.take(i as int) + resto);
                    lema_trozos_concat(v@.take(i as int), resto);
                    let tr = trozos(resto);
                    lema_trozos_no_vacio(resto);
                    lema_trozos_salto_inicial(resto);
                    assert(tr[0] == Seq::<char>::empty());
                    let total = hechos.push(actual@ + tr[0]) + tr.drop_first();
                    assert(trozos(v@) == total);
                    assert(actual@ + tr[0] == actual@);
                    assert(total == hechos + (seq![actual@] + tr.drop_first()));
                    lema_primera_valida_salta(hechos, seq![actual@] + tr.drop_first());
                    assert((seq![actual@] + tr.drop_first())[0] == actual@);
                }
                return texto_de(&t);
            }
            proof {
                hechos = hechos.push(actual@);
            }
            actual = Vec::new();
        } else {
            actual.push(c);
        }
        i = i + 1;
    }
    assert(v@.take(v.len() as int) == v@);
    let (ok, t) = linea_valida_exec(&actual);
    proof {
        lema_primera_valida_salta(hechos, seq![actual@]);
        assert(hechos.push(actual@) == hechos + seq![actual@]);
        assert(seq![actual@].drop_first() =~= Seq::<Seq<char>>::empty());
        assert(seq![actual@][0] == actual@);
        assert(primera_valida(Seq::<Seq<char>>::empty()) == Seq::<char>::empty());
        assert(trozos(v@) == hechos.push(actual@));
    }
    if ok {
        texto_de(&t)
    } else {
        String::new()
    }
}

/// Splitting a concatenation: the last piece of the first text joins the
/// first piece of the second.
proof fn lema_trozos_concat(a: Seq<char>, b: Seq<char>)
    ensures
        trozos(a + b) == trozos(a).drop_last().push(trozos(a).last() + trozos(b)[0]) + trozos(
            b,
        ).drop_first(),
    decreases b.len(),
{
    lema_trozos_no_vacio(a);
    lema_trozos_no_vacio(b);
    if b.len() == 0 {
        assert(a + b == a);
        assert(trozos(b) == seq![Seq::<char>::empty()]);
        assert(trozos(a).last() + Seq::<char>::empty() == trozos(a).last());
        assert(trozos(b).drop_first() =~= Seq::<Seq<char>>::empty());
        assert(trozos(a).drop_last().push(trozos(a).last()) =~= trozos(a));
    } else {
        lema_trozos_concat(a, b.drop_last());
        assert((a + b).drop_last() == a + b.drop_last());
        assert((a + b).last() == b.last());
        let ta = trozos(a);
        let tb = trozos(b.drop_last());
        lema_trozos_no_vacio(b.drop_last());
        let cab = ta.drop_last().push(ta.last() + tb[0]);
        if es_salto(b.last()) {
            assert(trozos(b) == tb.push(Seq::empty()));
            assert(trozos(b)[0] == tb[0]);
            assert(trozos(b).drop_first() == tb.drop_first().push(Seq::empty()));
            assert((cab + tb.drop_first()).push(Seq::empty()) == cab + tb.drop_first().push(
                Seq::empty(),
            ));
        } else {
            let tbn = tb.drop_last().push(tb.last().push(b.last()));
            assert(trozos(b) == tbn);
            if tb.len() == 1 {
                assert(tbn[0] == tb[0].push(b.last()));
                assert(tbn.drop_first() =~= Seq::<Seq<char>>::empty());
                assert(tb.drop_first() =~= Seq::<Seq<char>>::empty());
                assert(cab + tb.drop_first() == cab);
                assert(ta.last() + tb[0].push(b.last()) == (ta.last() + tb[0]).push(b.last()));
                assert(cab.drop_last() == ta.drop_last());
                assert(trozos(a + b) =~= ta.drop_last().push(ta.last() + tbn[0]) + tbn.drop_first());
            } else {
                assert(tbn[0] == tb[0]);
                let rest = tb.drop_first();
                assert(tbn.drop_first() == rest.drop_last().push(rest.last().push(b.last())));
                let full = cab + rest;
                assert(full.last() == rest.last());
                assert(full.drop_last() == cab + rest.drop_last());
                assert(trozos(a + b) =~= (cab + rest.drop_last()).push(rest.last().push(b.last())));
                assert((cab + rest.drop_last()).push(rest.last().push(b.last())) =~= cab + tbn.drop_first());
            }
        }
    }
}

/// A text that starts with a line break splits into an empty first piece.
proof fn lema_trozos_salto_inicial(s: Seq<char>)
    requires
        s.len() > 0,
        es_salto(s[0]),
    ensures
        trozos(s)[0] == Seq::<char>::empty(),
        trozos(s).len() >= 2,
    decreases s.len(),
{
    if s.len() == 1 {
        assert(s.drop_last() =~= Seq::<char>::empty());
        assert(trozos(s.drop_last()) == seq![Seq::<char>::empty()]);
    } else {
        assert(s.drop_last()[0] == s[0]);
        lema_trozos_salto_inicial(s.drop_last());
        let t = trozos(s.drop_last());
        if !es_salto(s.last()) {
            assert(t.drop_last().push(t.last().push(s.last()))[0] == t[0]);
        }
    }
}

// ─── Lookups ─────────────────────────────────────────────────────────────────

/// The repertorio stored under exactly this number.
pub fn buscar_repertorio(bd: &BaseRepertorios, numero: &str) -> (r: Option<Registro>)
    ensures
        r == consulta(bd@, numero@),
{
    match bd.obtener(numero) {
        Some(reg) => Some(reg.clone()),
        None => None,
    }
}

/// Stores `datos` under `numero`, replacing what was stored there.
pub fn reemplazar_repertorio(bd: &mut BaseRepertorios, numero: String, datos: Registro)
    ensures
        final(bd)@ == old(bd)@.insert(numero@, datos),
{
    bd.insertar(numero, datos);
}

/// What a flexible lookup of `numero` may give: the repertorio stored under
/// the trimmed number; failing that, nothing exactly when no stored
/// repertorio has the same digits, else one of those that have.
pub open spec fn flexible_repertorio(
    m: Map<Seq<char>, Registro>,
    numero: Seq<char>,
    r: Option<Registro>,
) -> bool {
    let clave = recortar(numero);
    if m.contains_key(clave) {
        r == Some(m[clave])
    } else {
        &&& r is None <==> forall|k: Seq<char>|
            #[trigger] m.contains_key(k) ==> solo_digitos(m[k].repertorio@) != solo_digitos(clave)
        &&& r matches Some(reg) ==> exists|k: Seq<char>|
            #[trigger] m.contains_key(k) && m[k] == reg && solo_digitos(reg.repertorio@)
                == solo_digitos(clave)
    }
}

/// Flexible lookup: the repertorio stored under the trimmed number; failing
/// that, one whose repertorio number has the same digits (a stored "3.090"
/// is found from an OCR reading "3090"). Which of several such entries is
/// returned is left open: the database keeps no order among its keys.
pub fn buscar_repertorio_flexible(bd: &BaseRepertorios, numero: &str) -> (r: Option<Registro>)
    ensures
        flexible_repertorio(bd@, numero@, r),
{
    let v = caracteres(numero);
    let clave_v = recortado(&v);
    let clave = texto_de(&clave_v);
    if let Some(reg) = bd.obtener(clave.as_str()) {
        return Some(reg.clone());
    }
    let norm = digitos_de(&clave_v);
    bd.propiedades();
    proof {
        crate::tabla::lema_mapa_de(bd.entradas_v());
    }
    let n = bd.len();
    let mut i: usize = 0;
    while i < n
        invariant
            n == bd.entradas_v().len(),
            i <= n,
            norm@ == solo_digitos(recortar(numero@)),
            !bd@.contains_key(recortar(numero@)),
            bd@ == crate::tabla::mapa_de(bd.entradas_v()),
            crate::tabla::claves_distintas(bd.entradas_v()),
            forall|j: int|
                0 <= j < i ==> solo_digitos(#[trigger] bd.entradas_v()[j].1.repertorio@) != norm@,
        decreases n - i,
    {
        let reg = bd.valor_en(i);
        let dr = digitos_de(&caracteres(reg.repertorio.as_str()));
        if iguales(&dr, &norm) {
            proof {
                crate::tabla::lema_mapa_de(bd.entradas_v());
                let k = bd.entradas_v()[i as int].0;
                assert(bd@.contains_key(k) && bd@[k] == *reg);
            }
            return Some(reg.clone());
        }
        i = i + 1;
    }
    proof {
        crate::tabla::lema_mapa_de(bd.entradas_v());
        assert forall|k: Seq<char>| #[trigger] bd@.contains_key(k) implies solo_digitos(
            bd@[k].repertorio@,
        ) != norm@ by {
            let j = choose|j: int| 0 <= j < bd.entradas_v().len() && #[trigger] bd.entradas_v()[j].0 == k;
            assert(bd@[k] == bd.entradas_v()[j].1);
        }
    }
    None
}

// ─── Import from a spreadsheet ───────────────────────────────────────────────

/// What importing a spreadsheet of repertorios reports.
#[derive(Debug, PartialEq, Eq)]
pub struct ResultadoRepertorios {
    pub ok: bool,
    pub cargados: usize,
    pub duplicados: Vec<Duplicado>,
    pub errores: Vec<String>,
    pub error: Option<String>,
}

/// The sheet to import: the one named "Exportar" (in any case), else the
/// one named "Resultado", else the first; none when there are no sheets.
pub open spec fn hoja_elegida(nombres: Seq<Seq<char>>) -> Option<Seq<char>> {
    if exists|i: int| 0 <= i < nombres.len() && minusculas(#[trigger] nombres[i]) == "exportar"@ {
        Some(
            nombres[choose|i: int|
                0 <= i < nombres.len() && minusculas(#[trigger] nombres[i]) == "exportar"@ && forall|
                    j: int,
                | 0 <= j < i ==> minusculas(#[trigger] nombres[j]) != "exportar"@],
        )
    } else if exists|i: int| 0 <= i < nombres.len() && minusculas(#[trigger] nombres[i])
        == "resultado"@ {
        Some(
            nombres[choose|i: int|
                0 <= i < nombres.len() && minusculas(#[trigger] nombres[i]) == "resultado"@
                    && forall|j: int| 0 <= j < i ==> minusculas(#[trigger] nombres[j]) != "resultado"@],
        )
    } else if nombres.len() > 0 {
        Some(nombres[0])
    } else {
        None
    }
}

/// Position of the first name that reads `buscado` in lower case.
fn buscar_hoja(nombres: &Vec<String>, buscado: &str) -> (r: Option<usize>)
    ensures
        match r {
            Some(i) => {
                &&& i < nombres@.len()
                &&& minusculas(nombres@[i as int]@) == buscado@
                &&& forall|j: int| 0 <= j < i ==> minusculas(#[trigger] nombres@[j]@) != buscado@
            },
            None => forall|j: int|
                0 <= j < nombres@.len() ==> minusculas(#[trigger] nombres@[j]@) != buscado@,
        },
{
    let mut i: usize = 0;
    while i < nombres.len()
        invariant
            i <= nombres@.len(),
            forall|j: int| 0 <= j < i ==> minusculas(#[trigger] nombres@[j]@) != buscado@,
        decreases nombres@.len() - i,
    {
        let lc = minusculas_de(&caracteres(nombres[i].as_str()));
        if es_literal(&lc, buscado) {
            return Some(i);
        }
        i = i + 1;
    }
    None
}

/// Picks the sheet to import among the workbook's sheet names.
pub fn elegir_hoja(nombres: &Vec<String>) -> (r: Option<String>)
    ensures
        r.deep_view() == hoja_elegida(nombres@.map_values(|n: String| n@)),
{
    let ghost vs = nombres@.map_values(|n: String| n@);
    match buscar_hoja(nombres, "exportar") {
        Some(i) => {
            proof {
                assert(minusculas(vs[i as int]) == "exportar"@);
                let c = choose|k: int|
                    0 <= k < vs.len() && minusculas(#[trigger] vs[k]) == "exportar"@ && forall|
                        j: int,
                    | 0 <= j < k ==> minusculas(#[trigger] vs[j]) != "exportar"@;
                assert(minusculas(vs[i as int]) == "exportar"@);
                if c < i {
                    assert(minusculas(vs[c]) != "exportar"@);
                }
                if i < c {
                    assert(minusculas(vs[i as int]) != "exportar"@);
                }
            }
            return Some(nombres[i].clone());
        },
        None => {},
    }
    assert(!exists|k: int| 0 <= k < vs.len() && minusculas(#[trigger] vs[k]) == "exportar"@) by {
        assert forall|k: int| 0 <= k < vs.len() implies minusculas(#[trigger] vs[k]) != "exportar"@ by {
            assert(vs[k] == nombres@[k]@);
        }
    }
    match buscar_hoja(nombres, "resultado") {
        Some(i) => {
            proof {
                assert(minusculas(vs[i as int]) == "resultado"@);
                let c = choose|k: int|
                    0 <= k < vs.len() && minusculas(#[trigger] vs[k]) == "resultado"@ && forall|
                        j: int,
                    | 0 <= j < k ==> minusculas(#[trigger] vs[j]) != "resultado"@;
                if c < i {
                    assert(minusculas(vs[c]) != "resultado"@);
                }
                if i < c {
                    assert(minusculas(vs[i as int]) != "resultado"@);
                }
            }
            return Some(nombres[i].clone());
        },
        None => {},
    }
    assert(!exists|k: int| 0 <= k < vs.len() && minusculas(#[trigger] vs[k]) == "resultado"@) by {
        assert forall|k: int| 0 <= k < vs.len() implies minusculas(#[trigger] vs[k]) != "resultado"@ by {
            assert(vs[k] == nombres@[k]@);
        }
    }
    if nombres.len() > 0 {
        Some(nombres[0].clone())
    } else {
        None
    }
}

/// The cell at column `i`, if the row reaches it.
pub open spec fn celda_en(fila: Seq<Celda>, i: int) -> Option<Celda> {
    if 0 <= i < fila.len() {
        Some(fila[i])
    } else {
        None
    }
}

/// The text at column `i`, empty when the row does not reach it.
pub open spec fn texto_en(fila: Seq<Celda>, i: int) -> Seq<char> {
    match celda_en(fila, i) {
        Some(c) => texto_de_celda(c),
        None => Seq::empty(),
    }
}

/// The date at column `i`, empty when the row does not reach it.
pub open spec fn fecha_en(fila: Seq<Celda>, i: int) -> Seq<char> {
    match celda_en(fila, i) {
        Some(c) => fecha_de_celda(c),
        None => Seq::empty(),
    }
}

/// The rows as sequences of cells.
pub open spec fn filas_v(filas: Seq<Vec<Celda>>) -> Seq<Seq<Celda>> {
    filas.map_values(|f: Vec<Celda>| f@)
}

/// The sheet is the "MODELO PARA BASE DE DATOS" layout: its second row has
/// the headers "OT" and "Repertorio" in columns 1 and 2 (any case).
pub open spec fn es_modelo_spec(filas: Seq<Seq<Celda>>) -> bool {
    &&& filas.len() > 1
    &&& minusculas(texto_en(filas[1], 1)) == "ot"@
    &&& minusculas(texto_en(filas[1], 2)) == "repertorio"@
}

/// The non-empty texts among `p`, in order.
pub open spec fn no_vacios(p: Seq<Seq<char>>) -> Seq<Seq<char>>
    decreases p.len(),
{
    if p.len() == 0 {
        p
    } else if p.last().len() > 0 {
        no_vacios(p.drop_last()).push(p.last())
    } else {
        no_vacios(p.drop_last())
    }
}

/// Compareciente 2 of a MODELO row: apellido paterno, apellido materno and
/// nombre (columns 10 to 12), the non-empty ones joined by spaces.
pub open spec fn compareciente_modelo(fila: Seq<Celda>) -> Seq<char> {
    recortar(
        unir(no_vacios(seq![texto_en(fila, 10), texto_en(fila, 11), texto_en(fila, 12)]), " "@),
    )
}

/// The repertorio a row brings, or `None` when its repertorio cell (column
/// 2) is missing or empty.
pub open spec fn registro_de_fila(fila: Seq<Celda>, modelo: bool) -> Option<RegistroV> {
    let rep = texto_en(fila, 2);
    if rep.len() == 0 {
        None
    } else if modelo {
        Some(
            RegistroV {
                repertorio: rep,
                ot: texto_en(fila, 1),
                fecha: fecha_en(fila, 3),
                cliente: texto_en(fila, 9),
                materia: Seq::empty(),
                compareciente: compareciente_modelo(fila),
            },
        )
    } else {
        Some(
            RegistroV {
                repertorio: rep,
                ot: texto_en(fila, 0),
                fecha: fecha_en(fila, 3),
                cliente: texto_en(fila, 5),
                materia: texto_en(fila, 7),
                compareciente: primera_valida(trozos(texto_en(fila, 8))),
            },
        )
    }
}

/// Importing rows into a database: each new repertorio is stored and
/// counted; one already stored (before or earlier in the same sheet) is
/// reported as a duplicate and left as it was.
pub open spec fn incorporar_spec(
    m: Map<Seq<char>, RegistroV>,
    filas: Seq<Seq<Celda>>,
    modelo: bool,
) -> (Map<Seq<char>, RegistroV>, nat, Seq<DuplicadoV>)
    decreases filas.len(),
{
    if filas.len() == 0 {
        (m, 0, Seq::empty())
    } else {
        let (m1, n1, d1) = incorporar_spec(m, filas.drop_last(), modelo);
        match registro_de_fila(filas.last(), modelo) {
            None => (m1, n1, d1),
            Some(reg) => if m1.contains_key(reg.repertorio) {
                (
                    m1,
                    n1,
                    d1.push(
                        DuplicadoV { numero: reg.repertorio, existente: m1[reg.repertorio], entrante: reg },
                    ),
                )
            } else {
                (m1.insert(reg.repertorio, reg), n1 + 1, d1)
            },
        }
    }
}

/// The rows of data: after the two header rows of a MODELO sheet, after
/// the single header row otherwise.
pub open spec fn filas_de_datos(filas: Seq<Seq<Celda>>) -> Seq<Seq<Celda>> {
    if es_modelo_spec(filas) {
        filas.skip(2)
    } else if filas.len() == 0 {
        filas
    } else {
        filas.skip(1)
    }
}

/// Every row of data that brings a repertorio has a date cell that chrono
/// can read.
pub open spec fn fechas_representables(filas: Seq<Seq<Celda>>) -> bool {
    forall|i: int|
        #![trigger filas[i]]
        0 <= i < filas.len() && texto_en(filas[i], 2).len() > 0 && filas[i].len() > 3
            ==> fecha_representable(filas[i][3])
}

fn texto_en_exec(fila: &Vec<Celda>, i: usize) -> (r: String)
    ensures
        r@ == texto_en(fila@, i as int),
{
    if i < fila.len() {
        celda_como_str(&fila[i])
    } else {
        String::new()
    }
}

fn fecha_en_exec(fila: &Vec<Celda>, i: usize) -> (r: String)
    requires
        i < fila@.len() ==> fecha_representable(fila@[i as int]),
    ensures
        r@ == fecha_en(fila@, i as int),
{
    if i < fila.len() {
        celda_como_fecha(&fila[i])
    } else {
        String::new()
    }
}

/// Whether the sheet has the "MODELO PARA BASE DE DATOS" layout.
pub fn es_modelo_bd(filas: &Vec<Vec<Celda>>) -> (r: bool)
    ensures
        r == es_modelo_spec(filas_v(filas@)),
{
    if filas.len() > 1 {
        let fila = &filas[1];
        assert(filas_v(filas@)[1] == fila@);
        let c1 = minusculas_de(&caracteres(texto_en_exec(fila, 1).as_str()));
        let c2 = minusculas_de(&caracteres(texto_en_exec(fila, 2).as_str()));
        es_literal(&c1, "ot") && es_literal(&c2, "repertorio")
    } else {
        false
    }
}

fn compareciente_modelo_exec(fila: &Vec<Celda>) -> (r: String)
    ensures
        r@ == compareciente_modelo(fila@),
{
    let ap = texto_en_exec(fila, 10);
    let am = texto_en_exec(fila, 11);
    let nm = texto_en_exec(fila, 12);
    let ghost partes = seq![ap@, am@, nm@];
    let mut elegidas: Vec<String> = Vec::new();
    assert(partes.take(0) =~= Seq::<Seq<char>>::empty());
    if !ap.as_str().is_empty() {
        elegidas.push(ap);
    }
    assert(partes.take(1).drop_last() == partes.take(0));
    assert(partes.take(1).last() == partes[0]);
    assert(no_vacios(partes.take(0)) =~= Seq::<Seq<char>>::empty());
    assert(elegidas@.map_values(|p: String| p@) =~= no_vacios(partes.take(1)));
    if !am.as_str().is_empty() {
        elegidas.push(am);
    }
    assert(partes.take(2).drop_last() == partes.take(1));
    assert(partes.take(2).last() == partes[1]);
    assert(elegidas@.map_values(|p: String| p@) =~= no_vacios(partes.take(2)));
    if !nm.as_str().is_empty() {
        elegidas.push(nm);
    }
    assert(partes.take(3).drop_last() == partes.take(2));
    assert(partes.take(3).last() == partes[2]);
    assert(partes.take(3) == partes);
    assert(elegidas@.map_values(|p: String| p@) =~= no_vacios(partes));
    let unido = unir_textos(&elegidas, " ");
    texto_de(&recortado(&caracteres(unido.as_str())))
}

fn registro_de_fila_exec(fila: &Vec<Celda>, modelo: bool) -> (r: Option<Registro>)
    requires
        texto_en(fila@, 2).len() > 0 && fila@.len() > 3 ==> fecha_representable(fila@[3]),
    ensures
        match registro_de_fila(fila@, modelo) {
            Some(reg) => r is Some && r.unwrap()@ == reg,
            None => r is None,
        },
{
    let repertorio = texto_en_exec(fila, 2);
    if repertorio.as_str().is_empty() {
        return None;
    }
    if modelo {
        Some(
            Registro {
                repertorio,
                ot: texto_en_exec(fila, 1),
                fecha: fecha_en_exec(fila, 3),
                cliente: texto_en_exec(fila, 9),
                materia: String::new(),
                compareciente: compareciente_modelo_exec(fila),
            },
        )
    } else {
        let bruto = texto_en_exec(fila, 8);
        Some(
            Registro {
                repertorio,
                ot: texto_en_exec(fila, 0),
                fecha: fecha_en_exec(fila, 3),
                cliente: texto_en_exec(fila, 5),
                materia: texto_en_exec(fila, 7),
                compareciente: extraer_compareciente(bruto.as_str()),
            },
        )
    }
}

proof fn lema_vista_insert(m: Map<Seq<char>, Registro>, k: Seq<char>, r: Registro)
    ensures
        vista_base(m.insert(k, r)) == vista_base(m).insert(k, r@),
{
    assert(vista_base(m.insert(k, r)) =~= vista_base(m).insert(k, r@));
}

/// Imports the rows of a sheet into the database: stores each repertorio
/// not yet stored and reports the others as duplicates.
pub fn incorporar_filas(bd: &mut BaseRepertorios, filas: &Vec<Vec<Celda>>) -> (r:
    ResultadoRepertorios)
    requires
        fechas_representables(filas_de_datos(filas_v(filas@))),
    ensures
        ({
            let (m, n, d) = incorporar_spec(
                vista_base(old(bd)@),
                filas_de_datos(filas_v(filas@)),
                es_modelo_spec(filas_v(filas@)),
            );
            &&& vista_base(final(bd)@) == m
            &&& r.cargados as nat == n
            &&& r.duplicados@.map_values(|x: Duplicado| x@) == d
        }),
        r.ok,
        r.errores@.len() == 0,
        r.error is None,
{
    let modelo = es_modelo_bd(filas);
    let inicio: usize = if modelo {
        2
    } else {
        1
    };
    let ghost datos = filas_de_datos(filas_v(filas@));
    let ghost m0 = vista_base(bd@);
    let mut cargados: usize = 0;
    let mut duplicados: Vec<Duplicado> = Vec::new();
    let mut i: usize = inicio;
    if filas.len() < inicio {
        assert(filas@.len() == 0);
        assert(datos =~= Seq::<Seq<Celda>>::empty());
        return ResultadoRepertorios {
            ok: true,
            cargados,
            duplicados,
            errores: Vec::new(),
            error: None,
        };
    }
    assert(datos.take(0) =~= Seq::<Seq<Celda>>::empty());
    while i < filas.len()
        invariant
            inicio <= i <= filas@.len(),
            modelo == es_modelo_spec(filas_v(filas@)),
            inicio == (if modelo {
                2usize
            } else {
                1usize
            }),
            datos == filas_de_datos(filas_v(filas@)),
            datos == filas_v(filas@).skip(inicio as int),
            filas_v(filas@).len() == filas@.len(),
            fechas_representables(datos),
            cargados <= i,
            ({
                let (m, n, d) = incorporar_spec(m0, datos.take(i - inicio), modelo);
                &&& vista_base(bd@) == m
                &&& cargados as nat == n
                &&& duplicados@.map_values(|x: Duplicado| x@) == d
            }),
        decreases filas@.len() - i,
    {
        let fila = &filas[i];
        let ghost k = i - inicio;
        assert(datos[k] == fila@);
        let ghost pre = datos.take(k + 1);
        assert(pre.drop_last() == datos.take(k));
        assert(pre.last() == fila@);
        let entrante = registro_de_fila_exec(fila, modelo);
        match entrante {
            None => {},
            Some(reg) => {
                let numero = reg.repertorio.clone();
                match bd.obtener(numero.as_str()) {
                    Some(existente) => {
                        let d = Duplicado { numero, existente: existente.clone(), entrante: reg };
                        duplicados.push(d);
                        assert(duplicados@.map_values(|x: Duplicado| x@) =~= incorporar_spec(
                            m0,
                            pre,
                            modelo,
                        ).2);
                    },
                    None => {
                        let ghost antes = bd@;
                        bd.insertar(numero, reg);
                        proof {
                            lema_vista_insert(antes, reg.repertorio@, reg);
                        }
                        cargados = cargados + 1;
                    },
                }
            },
        }
        i = i + 1;
    }
    assert(datos.take(filas.len() - inicio) == datos);
    ResultadoRepertorios { ok: true, cargados, duplicados, errores: Vec::new(), error: None }
}

// ─── Laws ────────────────────────────────────────────────────────────────────

/// Importing never changes a repertorio that was already stored, and every
/// stored key stays stored.
pub proof fn ley_importar_no_sobrescribe(
    m: Map<Seq<char>, RegistroV>,
    filas: Seq<Seq<Celda>>,
    modelo: bool,
)
    ensures
        forall|k: Seq<char>|
            #[trigger] m.contains_key(k) ==> incorporar_spec(m, filas, modelo).0.contains_key(k)
                && incorporar_spec(m, filas, modelo).0[k] == m[k],
    decreases filas.len(),
{
    if filas.len() > 0 {
        ley_importar_no_sobrescribe(m, filas.drop_last(), modelo);
    }
}

/// The database grows by exactly the number of repertorios reported as
/// loaded.
pub proof fn ley_importar_cuenta(m: Map<Seq<char>, RegistroV>, filas: Seq<Seq<Celda>>, modelo: bool)
    requires
        m.dom().finite(),
    ensures
        incorporar_spec(m, filas, modelo).0.dom().finite(),
        incorporar_spec(m, filas, modelo).0.dom().len() == m.dom().len() + incorporar_spec(
            m,
            filas,
            modelo,
        ).1,
    decreases filas.len(),
{
    if filas.len() > 0 {
        ley_importar_cuenta(m, filas.drop_last(), modelo);
    }
}

/// Every row that brings a repertorio is either loaded or reported as a
/// duplicate.
pub proof fn ley_importar_reparte(m: Map<Seq<char>, RegistroV>, filas: Seq<Seq<Celda>>, modelo: bool)
    ensures
        incorporar_spec(m, filas, modelo).1 + incorporar_spec(m, filas, modelo).2.len()
            == filas.filter(|f: Seq<Celda>| registro_de_fila(f, modelo) is Some).len(),
    decreases filas.len(),
{
    reveal(Seq::filter);
    if filas.len() > 0 {
        ley_importar_reparte(m, filas.drop_last(), modelo);
    }
}


/// In the MODELO layout compareciente 2 is apellido paterno (column 10),
/// apellido materno (11) and nombre (12), in that order, separated by single
/// spaces, a missing apellido materno left out.
pub proof fn ley_compareciente_modelo(fila: Seq<Celda>)
    ensures
        texto_en(fila, 10).len() > 0 && texto_en(fila, 11).len() > 0 && texto_en(fila, 12).len()
            > 0 ==> compareciente_modelo(fila) == recortar(
            texto_en(fila, 10) + seq![' '] + texto_en(fila, 11) + seq![' '] + texto_en(fila, 12),
        ),
        texto_en(fila, 10).len() > 0 && texto_en(fila, 11).len() == 0 && texto_en(fila, 12).len()
            > 0 ==> compareciente_modelo(fila) == recortar(
            texto_en(fila, 10) + seq![' '] + texto_en(fila, 12),
        ),
        texto_en(fila, 2).len() > 0 ==> (registro_de_fila(fila, true) matches Some(r)
            && r.compareciente == compareciente_modelo(fila)),
{
    reveal_strlit(" ");
    assert(" "@ =~= seq![' ']);
    let a = texto_en(fila, 10);
    let b = texto_en(fila, 11);
    let c = texto_en(fila, 12);
    let p = seq![a, b, c];
    assert(p.drop_last() =~= seq![a, b]);
    assert(seq![a, b].drop_last() =~= seq![a]);
    assert(seq![a].drop_last() =~= Seq::<Seq<char>>::empty());
    let e = Seq::<Seq<char>>::empty();
    assert(no_vacios(e) == e);
    assert(seq![a] =~= e.push(a));
    if a.len() > 0 && c.len() > 0 {
        assert(no_vacios(seq![a]) == seq![a]);
        let sp = seq![' '];
        if b.len() > 0 {
            assert(no_vacios(seq![a, b]) == no_vacios(seq![a]).push(b));
            assert(seq![a].push(b) =~= seq![a, b]);
            assert(no_vacios(p) == no_vacios(seq![a, b]).push(c));
            assert(seq![a, b].push(c) =~= p);
            let n = no_vacios(p);
            assert(n == p);
            assert(unir(seq![a], sp) == a);
            assert(unir(seq![a, b], sp) == unir(seq![a], sp) + sp + b);
            assert(unir(p, sp) == unir(seq![a, b], sp) + sp + c);
        } else {
            assert(no_vacios(seq![a, b]) == no_vacios(seq![a]));
            assert(no_vacios(p) == no_vacios(seq![a, b]).push(c));
            assert(seq![a].push(c) =~= seq![a, c]);
            let n = no_vacios(p);
            assert(n == seq![a, c]);
            assert(seq![a, c].drop_last() =~= seq![a]);
            assert(unir(seq![a], sp) == a);
            assert(unir(seq![a, c], sp) == unir(seq![a], sp) + sp + c);
        }
    }
}

} // verus!
