//! Reading a scanned deed's first page once OCR has turned it into text:
//! its repertorio number and year, the protocolised number and the title.

use vstd::prelude::*;

use crate::patrones::{capturas, coincide, regex_coincide, regex_grupos};
use crate::texto::{
    anexar, anexar_str, caracteres, en_blanco, es_espacio, es_literal, espacio, esta_en_blanco,
    mayusculas, mayusculas_de, recortado, recortar, solo_digitos, texto_de, tramo, unir,
    unir_textos,
};
use crate::transformador::indice_de;

verus! {

// ─── Patterns ────────────────────────────────────────────────────────────────

/// "REPERTORIO N° 3.090 - 2024", "REPERTORION°3090", "REPERTORIO 1234", ...
pub const RE_REPERTORIO: &'static str =
    "(?i)REPERTORIO\\s*N?[°oº]?\\s*([\\d.]+)(?:\\s*[-–]\\s*(\\d{4}))?";

/// "PROTOCOLIZADO N° 1.234".
pub const RE_PROTOCOLIZADO: &'static str = "(?i)PROTOCOLIZADO\\s+N[°º]?\\s*([\\d.]+)";

/// The line where the title zone starts.
pub const RE_INICIO_TITULO: &'static str = "(?i)^PROTOCOLIZACION";

/// A line where the title zone ends.
pub const RE_FIN_TITULO: &'static str =
    "(?i)^(En\\s+Santiago|AUTOFIN|BANCO|GLOBAL|YUDILKA|En\\s+la\\s+ciudad)";

/// Lines of the letterhead that are never the title.
pub open spec fn excluido(s: Seq<char>) -> bool {
    ||| s == "CAROLINA E. PINA CUEVAS"@
    ||| s == "CAROLINA E PINA CUEVAS"@
    ||| s == "NOTARIO PUBLICO INTERINO"@
    ||| s == "NOTARIO PUBLICO"@
    ||| s == "HUERFANOS 979 OF. 501 - SANTIAGO"@
    ||| s == "HUERFANOS 979 OF 501 SANTIAGO"@
    ||| s == "A"@
}

fn es_excluido(v: &Vec<char>) -> (r: bool)
    ensures
        r == excluido(v@),
{
    es_literal(v, "CAROLINA E. PINA CUEVAS") || es_literal(v, "CAROLINA E PINA CUEVAS")
        || es_literal(v, "NOTARIO PUBLICO INTERINO") || es_literal(v, "NOTARIO PUBLICO")
        || es_literal(v, "HUERFANOS 979 OF. 501 - SANTIAGO") || es_literal(
        v,
        "HUERFANOS 979 OF 501 SANTIAGO",
    ) || es_literal(v, "A")
}

// ─── Character classes ───────────────────────────────────────────────────────

/// `char::is_alphabetic` (the Unicode `Alphabetic` property).
pub uninterp spec fn alfabetico(c: char) -> bool;

/// `char::is_uppercase` (the Unicode `Uppercase` property).
pub uninterp spec fn mayuscula(c: char) -> bool;

/// `char::is_alphabetic`; its result is named, not described: the Unicode
/// tables are not restated here.
#[verifier::external_body]
pub(crate) fn es_alfabetico(c: char) -> (r: bool)
    ensures
        r == alfabetico(c),
{
    c.is_alphabetic()
}

/// `char::is_uppercase`; named as `es_alfabetico` is.
#[verifier::external_body]
pub(crate) fn es_mayuscula(c: char) -> (r: bool)
    ensures
        r == mayuscula(c),
{
    c.is_uppercase()
}

// ─── Numbers ─────────────────────────────────────────────────────────────────

/// A character as OCR confusions are corrected: O and o read 0, l and I read 1.
pub open spec fn corregir(c: char) -> char {
    if c == 'O' || c == 'o' {
        '0'
    } else if c == 'l' || c == 'I' {
        '1'
    } else {
        c
    }
}

/// A repertorio number read by OCR, cleaned: confusions corrected, then
/// only the digits kept.
pub open spec fn numero_normalizado(s: Seq<char>) -> Seq<char> {
    solo_digitos(s.map_values(|c: char| corregir(c)))
}

/// Cleans a repertorio number read by OCR: dots and spaces go, O becomes 0
/// and l or I become 1.
pub fn normalizar_numero(s: &str) -> (r: String)
    ensures
        r@ == numero_normalizado(s@),
{
    let v = caracteres(s);
    let mut w: Vec<char> = Vec::new();
    let mut i: usize = 0;
    while i < v.len()
        invariant
            i <= v.len(),
            v@ == s@,
            w@ == v@.take(i as int).map_values(|c: char| corregir(c)),
        decreases v.len() - i,
    {
        let c = v[i];
        let d = if c == 'O' || c == 'o' {
            '0'
        } else if c == 'l' || c == 'I' {
            '1'
        } else {
            c
        };
        w.push(d);
        assert(v@.take(i + 1).map_values(|c: char| corregir(c)) =~= v@.take(i as int).map_values(
            |c: char| corregir(c),
        ).push(corregir(c)));
        i = i + 1;
    }
    assert(v@.take(v.len() as int) == v@);
    texto_de(&crate::texto::digitos_de(&w))
}

// ─── Lines ───────────────────────────────────────────────────────────────────

/// `str::lines`: the text split at each `\n` (a `\r` just before it goes
/// too); a final line break adds no empty line.
pub open spec fn lineas(s: Seq<char>) -> Seq<Seq<char>>
    decreases s.len(),
{
    if s.len() == 0 {
        Seq::empty()
    } else {
        let k = indice_de(s, '\n');
        if k >= s.len() {
            seq![s]
        } else {
            let l = s.take(k as int);
            let l2 = if l.len() > 0 && l.last() == '\r' {
                l.drop_last()
            } else {
                l
            };
            seq![l2] + lineas(s.skip(k as int + 1))
        }
    }
}

/// The lines of a text.
pub fn separar_lineas(texto: &str) -> (r: Vec<Vec<char>>)
    ensures
        r@.map_values(|l: Vec<char>| l@) == lineas(texto@),
{
    let v = caracteres(texto);
    let mut r: Vec<Vec<char>> = Vec::new();
    let mut desde: usize = 0;
    assert(v@.skip(0) == v@);
    while desde < v.len()
        invariant
            desde <= v.len(),
            v@ == texto@,
            lineas(texto@) == r@.map_values(|l: Vec<char>| l@) + lineas(v@.skip(desde as int)),
        decreases v.len() - desde,
    {
        let ghost s = v@.skip(desde as int);
        let mut k: usize = desde;
        while k < v.len() && v[k] != '\n'
            invariant
                desde <= k <= v.len(),
                s == v@.skip(desde as int),
                forall|j: int| 0 <= j < k - desde ==> s[j] != '\n',
            decreases v.len() - k,
        {
            k = k + 1;
        }
        proof {
            crate::transformador::lema_indice_de(s, '\n', k - desde);
        }
        let ghost r0 = r@.map_values(|l: Vec<char>| l@);
        if k == v.len() {
            let l = tramo(&v, desde, k);
            assert(l@ == s);
            r.push(l);
            assert(r@.map_values(|l: Vec<char>| l@) =~= r0.push(s));
            assert(v@.skip(v.len() as int) =~= Seq::<char>::empty());
            assert(lineas(texto@) == r0 + seq![s]);
            desde = k;
        } else {
            let fin = if k > desde && v[k - 1] == '\r' {
                k - 1
            } else {
                k
            };
            let l = tramo(&v, desde, fin);
            assert(s.take(k - desde) == v@.subrange(desde as int, k as int));
            assert(l@ == (if s.take(k - desde).len() > 0 && s.take(k - desde).last() == '\r' {
                s.take(k - desde).drop_last()
            } else {
                s.take(k - desde)
            }));
            r.push(l);
            assert(s.skip(k - desde + 1) == v@.skip(k + 1));
            assert(r@.map_values(|l: Vec<char>| l@) =~= r0.push(l@));
            assert(r0 + lineas(s) == r0.push(l@) + lineas(v@.skip(k + 1)));
            desde = k + 1;
        }
    }
    assert(lineas(v@.skip(desde as int)) =~= Seq::<Seq<char>>::empty());
    assert(lineas(texto@) =~= r@.map_values(|l: Vec<char>| l@));
    r
}

// ─── Repertorio number ───────────────────────────────────────────────────────

/// How many of the first lines hold the repertorio: a quarter of them, at
/// least 10, at most all.
pub open spec fn limite_zona(n: nat) -> nat {
    let q = n / 4;
    let m = if q > 10 {
        q
    } else {
        10
    };
    if m < n {
        m
    } else {
        n
    }
}

/// The top of the page, where the repertorio is searched for.
pub open spec fn zona_superior(texto: Seq<char>) -> Seq<char> {
    let ls = lineas(texto);
    unir(ls.take(limite_zona(ls.len()) as int), seq!['\n'])
}

/// A group of a match, empty when absent.
pub open spec fn grupo(g: Seq<Option<Seq<char>>>, i: int) -> Option<Seq<char>> {
    if 0 <= i < g.len() {
        g[i]
    } else {
        None
    }
}

/// The repertorio number (normalised) and year on the top of the page.
pub open spec fn repertorio_spec(texto: Seq<char>) -> (Option<Seq<char>>, Option<Seq<char>>) {
    match regex_grupos(RE_REPERTORIO@, zona_superior(texto)) {
        Some(g) => {
            let bruto = match grupo(g, 1) {
                Some(b) => b,
                None => Seq::empty(),
            };
            let numero = numero_normalizado(bruto);
            if numero.len() == 0 {
                (None, grupo(g, 2))
            } else {
                (Some(numero), grupo(g, 2))
            }
        },
        None => (None, None),
    }
}

fn grupo_exec(g: &Vec<Option<String>>, i: usize) -> (r: Option<String>)
    ensures
        r.deep_view() == grupo(g@.map_values(|x: Option<String>| x.deep_view()), i as int),
{
    if i < g.len() {
        match &g[i] {
            Some(s) => Some(s.clone()),
            None => None,
        }
    } else {
        None
    }
}

fn zona_superior_exec(texto: &str) -> (r: String)
    ensures
        r@ == zona_superior(texto@),
{
    let ls = separar_lineas(texto);
    let n = ls.len();
    let q = n / 4;
    let m = if q > 10 {
        q
    } else {
        10
    };
    let limite = if m < n {
        m
    } else {
        n
    };
    let ghost lv = ls@.map_values(|l: Vec<char>| l@);
    let mut partes: Vec<String> = Vec::new();
    let mut i: usize = 0;
    while i < limite
        invariant
            limite <= ls@.len(),
            i <= limite,
            lv == ls@.map_values(|l: Vec<char>| l@),
            partes@.map_values(|p: String| p@) == lv.take(i as int),
        decreases limite - i,
    {
        assert(lv[i as int] == ls@[i as int]@);
        let ghost p0 = partes@;
        partes.push(texto_de(&ls[i]));
        assert(partes@.map_values(|p: String| p@) =~= p0.map_values(|p: String| p@).push(
            lv[i as int],
        ));
        assert(lv.take(i + 1) =~= lv.take(i as int).push(lv[i as int]));
        i = i + 1;
    }
    proof {
        reveal_strlit("\n");
        assert("\n"@ =~= seq!['\n']);
    }
    unir_textos(&partes, "\n")
}

/// The repertorio number (normalised) and year written near the top of the
/// page; the number is absent when no digits are left.
pub fn extraer_repertorio(texto: &str) -> (r: (Option<String>, Option<String>))
    ensures
        r.0.deep_view() == repertorio_spec(texto@).0,
        r.1.deep_view() == repertorio_spec(texto@).1,
{
    let zona = zona_superior_exec(texto);
    match capturas(RE_REPERTORIO, zona.as_str()) {
        Some(g) => {
            let bruto = match grupo_exec(&g, 1) {
                Some(b) => b,
                None => String::new(),
            };
            let numero = normalizar_numero(bruto.as_str());
            let anho = grupo_exec(&g, 2);
            if numero.as_str().is_empty() {
                (None, anho)
            } else {
                (Some(numero), anho)
            }
        },
        None => (None, None),
    }
}

/// `s` without its dots.
pub open spec fn sin_puntos(s: Seq<char>) -> Seq<char>
    decreases s.len(),
{
    if s.len() == 0 {
        s
    } else if s.last() == '.' {
        sin_puntos(s.drop_last())
    } else {
        sin_puntos(s.drop_last()).push(s.last())
    }
}

/// The protocolised number, without dots.
pub open spec fn protocolizado_spec(texto: Seq<char>) -> Option<Seq<char>> {
    match regex_grupos(RE_PROTOCOLIZADO@, texto) {
        Some(g) => Some(
            match grupo(g, 1) {
                Some(n) => sin_puntos(n),
                None => Seq::empty(),
            },
        ),
        None => None,
    }
}

fn quitar_puntos(s: &String) -> (r: String)
    ensures
        r@ == sin_puntos(s@),
{
    let v = caracteres(s.as_str());
    let mut w: Vec<char> = Vec::new();
    let mut i: usize = 0;
    while i < v.len()
        invariant
            i <= v.len(),
            w@ == sin_puntos(v@.take(i as int)),
        decreases v.len() - i,
    {
        assert(v@.take(i + 1).drop_last() == v@.take(i as int));
        if v[i] != '.' {
            w.push(v[i]);
        }
        i = i + 1;
    }
    assert(v@.take(v.len() as int) == v@);
    texto_de(&w)
}

/// The number after "PROTOCOLIZADO N°", without dots.
pub fn extraer_protocolizado(texto: &str) -> (r: Option<String>)
    ensures
        r.deep_view() == protocolizado_spec(texto@),
{
    match capturas(RE_PROTOCOLIZADO, texto) {
        Some(g) => Some(
            match grupo_exec(&g, 1) {
                Some(n) => quitar_puntos(&n),
                None => String::new(),
            },
        ),
        None => None,
    }
}

// ─── Title ───────────────────────────────────────────────────────────────────

/// A character left out of a title.
pub open spec fn simbolo(c: char) -> bool {
    c == '°' || c == 'º' || c == '#' || c == '@' || c == '|'
}

/// `s` without the symbols.
pub open spec fn sin_simbolos(s: Seq<char>) -> Seq<char>
    decreases s.len(),
{
    if s.len() == 0 {
        s
    } else if simbolo(s.last()) {
        sin_simbolos(s.drop_last())
    } else {
        sin_simbolos(s.drop_last()).push(s.last())
    }
}

/// A title line cleaned: symbols removed, trimmed.
pub open spec fn titulo_limpio(s: Seq<char>) -> Seq<char> {
    recortar(sin_simbolos(s))
}

/// Removes the symbols °, º, #, @ and | from a title and trims it.
pub fn limpiar_titulo(s: &str) -> (r: String)
    ensures
        r@ == titulo_limpio(s@),
{
    let v = caracteres(s);
    let mut w: Vec<char> = Vec::new();
    let mut i: usize = 0;
    while i < v.len()
        invariant
            i <= v.len(),
            w@ == sin_simbolos(v@.take(i as int)),
        decreases v.len() - i,
    {
        let c = v[i];
        assert(v@.take(i + 1).drop_last() == v@.take(i as int));
        if !(c == '°' || c == 'º' || c == '#' || c == '@' || c == '|') {
            w.push(c);
        }
        i = i + 1;
    }
    assert(v@.take(v.len() as int) == v@);
    texto_de(&recortado(&w))
}

/// How many letters `s` has.
pub open spec fn num_letras(s: Seq<char>) -> nat
    decreases s.len(),
{
    if s.len() == 0 {
        0
    } else {
        num_letras(s.drop_last()) + if alfabetico(s.last()) {
            1nat
        } else {
            0nat
        }
    }
}

/// How many of the letters of `s` are upper case.
pub open spec fn num_mayusculas(s: Seq<char>) -> nat
    decreases s.len(),
{
    if s.len() == 0 {
        0
    } else {
        num_mayusculas(s.drop_last()) + if alfabetico(s.last()) && mayuscula(s.last()) {
            1nat
        } else {
            0nat
        }
    }
}

/// How many words (runs of non-white-space) `s` has.
pub open spec fn num_palabras(s: Seq<char>) -> nat
    decreases s.len(),
{
    if s.len() == 0 {
        0
    } else {
        num_palabras(s.drop_last()) + if !espacio(s.last()) && (s.len() == 1 || espacio(
            s[s.len() - 2],
        )) {
            1nat
        } else {
            0nat
        }
    }
}

/// More than three quarters of the letters are upper case (there being
/// letters at all).
pub open spec fn mayoria_mayusculas(s: Seq<char>) -> bool {
    num_letras(s) > 0 && 4 * num_mayusculas(s) > 3 * num_letras(s)
}

/// A line that reads as the deed's title: at least two words, at least five
/// letters, mostly upper case.
pub open spec fn parece_titulo(t: Seq<char>) -> bool {
    num_palabras(t) >= 2 && num_letras(t) >= 5 && mayoria_mayusculas(t)
}

/// The title, searching line by line from the start of the title zone (the
/// line after one that starts with PROTOCOLIZACION) to its end.
pub open spec fn titulo_desde(ls: Seq<Seq<char>>, en_zona: bool) -> Option<Seq<char>>
    decreases ls.len(),
{
    if ls.len() == 0 {
        None
    } else {
        let t = recortar(ls[0]);
        if !en_zona {
            titulo_desde(ls.drop_first(), regex_coincide(RE_INICIO_TITULO@, t))
        } else if regex_coincide(RE_FIN_TITULO@, t) {
            None
        } else if t.len() == 0 || excluido(mayusculas(t)) || !parece_titulo(t) {
            titulo_desde(ls.drop_first(), true)
        } else {
            Some(titulo_limpio(t))
        }
    }
}

/// The kind of contract of the deed, from the title zone.
pub open spec fn tipo_contrato_spec(texto: Seq<char>) -> Option<Seq<char>> {
    titulo_desde(lineas(texto), false)
}

/// Counts of letters, upper-case letters and words of a line.
fn contar(v: &Vec<char>) -> (r: (u64, u64, u64))
    ensures
        r.0 == num_letras(v@),
        r.1 == num_mayusculas(v@),
        r.2 == num_palabras(v@),
{
    let mut letras: u64 = 0;
    let mut mayus: u64 = 0;
    let mut palabras: u64 = 0;
    let mut i: usize = 0;
    while i < v.len()
        invariant
            i <= v.len(),
            letras == num_letras(v@.take(i as int)),
            mayus == num_mayusculas(v@.take(i as int)),
            palabras == num_palabras(v@.take(i as int)),
            letras <= i,
            mayus <= i,
            palabras <= i,
        decreases v.len() - i,
    {
        let c = v[i];
        let ghost pre = v@.take(i + 1);
        assert(pre.drop_last() == v@.take(i as int));
        assert(pre.last() == c);
        if i > 0 {
            assert(pre[pre.len() - 2] == v@[i - 1]);
        }
        let alfa = es_alfabetico(c);
        if alfa {
            letras = letras + 1;
            if es_mayuscula(c) {
                mayus = mayus + 1;
            }
        }
        if !es_espacio(c) && (i == 0 || es_espacio(v[i - 1])) {
            palabras = palabras + 1;
        }
        i = i + 1;
    }
    assert(v@.take(v.len() as int) == v@);
    (letras, mayus, palabras)
}

/// The kind of contract: the first line of the title zone (after the line
/// that starts with PROTOCOLIZACION, before one that starts with "En
/// Santiago", AUTOFIN, BANCO, ...) that is not part of the letterhead and
/// reads as a title; symbols removed.
pub fn extraer_tipo_contrato(texto: &str) -> (r: Option<String>)
    ensures
        r.deep_view() == tipo_contrato_spec(texto@),
{
    let ls = separar_lineas(texto);
    let ghost lv = ls@.map_values(|l: Vec<char>| l@);
    let mut en_zona = false;
    let mut i: usize = 0;
    assert(lv.skip(0) == lv);
    while i < ls.len()
        invariant
            i <= ls@.len(),
            lv == ls@.map_values(|l: Vec<char>| l@),
            lv == lineas(texto@),
            tipo_contrato_spec(texto@) == titulo_desde(lv.skip(i as int), en_zona),
        decreases ls@.len() - i,
    {
        let ghost resto = lv.skip(i as int);
        assert(resto[0] == ls@[i as int]@);
        assert(resto.drop_first() == lv.skip(i + 1));
        let t = recortado(&ls[i]);
        let ts = texto_de(&t);
        if !en_zona {
            if coincide(RE_INICIO_TITULO, ts.as_str()) {
                en_zona = true;
            }
        } else {
            if coincide(RE_FIN_TITULO, ts.as_str()) {
                return None;
            }
            if t.len() > 0 {
                let upper = mayusculas_de(&t);
                if !es_excluido(&upper) {
                    let (letras, mayus, palabras) = contar(&t);
                    if palabras >= 2 && letras >= 5 && letras > 0 && (mayus as u128) * 4 > (
                    letras as u128) * 3 {
                        return Some(limpiar_titulo(ts.as_str()));
                    }
                }
            }
        }
        i = i + 1;
    }
    assert(lv.skip(ls@.len() as int) =~= Seq::<Seq<char>>::empty());
    None
}

// ─── Everything read from a page ─────────────────────────────────────────────

/// What the first page of a deed says.
#[derive(Debug, PartialEq, Eq)]
pub struct DatosOcr {
    pub numero: Option<String>,
    pub anho: Option<String>,
    pub protocolizado: Option<String>,
    pub tipo_contrato: Option<String>,
}

/// Reads the repertorio number and year, the protocolised number and the
/// kind of contract from the OCR text of a first page.
pub fn analizar_texto(texto: &str) -> (r: DatosOcr)
    ensures
        r.numero.deep_view() == repertorio_spec(texto@).0,
        r.anho.deep_view() == repertorio_spec(texto@).1,
        r.protocolizado.deep_view() == protocolizado_spec(texto@),
        r.tipo_contrato.deep_view() == tipo_contrato_spec(texto@),
{
    let (numero, anho) = extraer_repertorio(texto);
    let protocolizado = extraer_protocolizado(texto);
    let tipo_contrato = extraer_tipo_contrato(texto);
    DatosOcr { numero, anho, protocolizado, tipo_contrato }
}

// ─── Laws ────────────────────────────────────────────────────────────────────

/// A normalised number is made of digits only, and normalising it again
/// leaves it as it is.
pub proof fn ley_normalizar(s: Seq<char>)
    ensures
        crate::texto::todos_digitos(numero_normalizado(s)),
        numero_normalizado(numero_normalizado(s)) == numero_normalizado(s),
{
    lema_solo_digitos(s.map_values(|c: char| corregir(c)));
    let n = numero_normalizado(s);
    assert(n.map_values(|c: char| corregir(c)) =~= n) by {
        assert forall|i: int| 0 <= i < n.len() implies corregir(n[i]) == n[i] by {
            assert(crate::texto::es_digito(n[i]));
        }
    }
    lema_solo_digitos_fijo(n);
}

proof fn lema_solo_digitos(s: Seq<char>)
    ensures
        crate::texto::todos_digitos(solo_digitos(s)),
    decreases s.len(),
{
    if s.len() > 0 {
        lema_solo_digitos(s.drop_last());
    }
}

proof fn lema_solo_digitos_fijo(s: Seq<char>)
    requires
        crate::texto::todos_digitos(s),
    ensures
        solo_digitos(s) == s,
    decreases s.len(),
{
    if s.len() > 0 {
        assert(crate::texto::todos_digitos(s.drop_last())) by {
            assert forall|i: int| 0 <= i < s.drop_last().len() implies crate::texto::es_digito(
                #[trigger] s.drop_last()[i],
            ) by {
                assert(s.drop_last()[i] == s[i]);
            }
        }
        lema_solo_digitos_fijo(s.drop_last());
        assert(crate::texto::es_digito(s[s.len() - 1]));
        assert(s.drop_last().push(s.last()) == s);
    }
}

/// A cleaned title has no symbols left.
pub proof fn ley_titulo_sin_simbolos(s: Seq<char>)
    ensures
        forall|i: int| 0 <= i < sin_simbolos(s).len() ==> !simbolo(#[trigger] sin_simbolos(s)[i]),
    decreases s.len(),
{
    if s.len() > 0 {
        ley_titulo_sin_simbolos(s.drop_last());
        let p = sin_simbolos(s.drop_last());
        if !simbolo(s.last()) {
            assert forall|i: int| 0 <= i < p.push(s.last()).len() implies !simbolo(
                #[trigger] p.push(s.last())[i],
            ) by {
                if i < p.len() {
                    assert(p.push(s.last())[i] == p[i]);
                }
            }
        }
    }
}


/// `t` holds at least two words: two non-space characters with white space
/// between them.
pub open spec fn dos_palabras(t: Seq<char>) -> bool {
    exists|i: int, j: int, k: int|
        0 <= i < j < k < t.len() && !espacio(t[i]) && espacio(t[j]) && !espacio(t[k])
}

proof fn lema_alguna_palabra(s: Seq<char>)
    requires
        num_palabras(s) >= 1,
    ensures
        exists|i: int| 0 <= i < s.len() && !espacio(s[i]),
    decreases s.len(),
{
    if !espacio(s.last()) {
        assert(!espacio(s[s.len() - 1]));
    } else {
        lema_alguna_palabra(s.drop_last());
        let i = choose|i: int| 0 <= i < s.drop_last().len() && !espacio(s.drop_last()[i]);
        assert(s[i] == s.drop_last()[i]);
    }
}

proof fn lema_dos_palabras(s: Seq<char>)
    requires
        num_palabras(s) >= 2,
    ensures
        dos_palabras(s),
    decreases s.len(),
{
    let p = s.drop_last();
    if num_palabras(p) >= 2 {
        lema_dos_palabras(p);
        let (i, j, k) = choose|i: int, j: int, k: int|
            0 <= i < j < k < p.len() && !espacio(p[i]) && espacio(p[j]) && !espacio(p[k]);
        assert(s[i] == p[i] && s[j] == p[j] && s[k] == p[k]);
    } else {
        assert(s.len() >= 2);
        lema_alguna_palabra(p);
        let i = choose|i: int| 0 <= i < p.len() && !espacio(p[i]);
        assert(s[i] == p[i]);
        assert(s[s.len() - 2] == p[p.len() - 1]);
        assert(i < s.len() - 2);
        assert(!espacio(s[i]) && espacio(s[s.len() - 2]) && !espacio(s[s.len() - 1]));
    }
}

proof fn lema_titulo_desde(ls: Seq<Seq<char>>, en_zona: bool)
    requires
        titulo_desde(ls, en_zona) is Some,
    ensures
        exists|k: int|
            0 <= k < ls.len() && dos_palabras(recortar(#[trigger] ls[k])) && titulo_desde(
                ls,
                en_zona,
            ) == Some(titulo_limpio(recortar(ls[k]))),
    decreases ls.len(),
{
    let t = recortar(ls[0]);
    if en_zona && !regex_coincide(RE_FIN_TITULO@, t) && !(t.len() == 0 || excluido(mayusculas(t))
        || !parece_titulo(t)) {
        lema_dos_palabras(t);
        assert(dos_palabras(recortar(ls[0])));
    } else {
        let resto = ls.drop_first();
        let z = if !en_zona {
            regex_coincide(RE_INICIO_TITULO@, t)
        } else {
            true
        };
        lema_titulo_desde(resto, z);
        let k = choose|k: int|
            0 <= k < resto.len() && dos_palabras(recortar(#[trigger] resto[k])) && titulo_desde(
                resto,
                z,
            ) == Some(titulo_limpio(recortar(resto[k])));
        assert(ls[k + 1] == resto[k]);
    }
}

/// The kind of contract is always read from a line of the text that holds
/// at least two words: a one-word line is never the title.
pub proof fn ley_titulo_dos_palabras(texto: Seq<char>)
    ensures
        tipo_contrato_spec(texto) matches Some(x) ==> exists|k: int|
            0 <= k < lineas(texto).len() && dos_palabras(recortar(#[trigger] lineas(texto)[k]))
                && x == titulo_limpio(recortar(lineas(texto)[k])),
{
    if tipo_contrato_spec(texto) is Some {
        lema_titulo_desde(lineas(texto), false);
    }
}

} // verus!
