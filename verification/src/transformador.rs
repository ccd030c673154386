//! The AUTOFIN SP rules: how a row of the input spreadsheet becomes a row of
//! the bulk planilla for the SRCeI.

use vstd::prelude::*;

use crate::modelos::{FilaEntrada, FilaSalida, FilaSalidaV};
use crate::texto::{
    a_mayusculas, anexar_decimal, anexar_str, caracteres, decimal, en_blanco, es_ascii, es_espacio,
    es_literal, esta_en_blanco, espacio, mayuscula_ascii, mayusculas, mayusculas_de, nbsp,
    recortado, recortar, texto_de, tramo,
};

verus! {

// ─── Constants ───────────────────────────────────────────────────────────────

/// RUT of AUTOFIN S.A., always compareciente 1.
pub const AUTOFIN_RUT: &'static str = "76139506-8";

/// Name of AUTOFIN S.A., always compareciente 1.
pub const AUTOFIN_NOMBRE: &'static str = "AUTOFIN S.A.";

// ─── Specifications ──────────────────────────────────────────────────────────

/// `s` without no-break spaces and white space.
pub open spec fn sin_espacios(s: Seq<char>) -> Seq<char>
    decreases s.len(),
{
    if s.len() == 0 {
        s
    } else {
        let previo = sin_espacios(s.drop_last());
        if s.last() != nbsp() && !espacio(s.last()) {
            previo.push(s.last())
        } else {
            previo
        }
    }
}

/// A RUT once cleaned: no white space, in upper case.
pub open spec fn rut_limpio(s: Seq<char>) -> Seq<char> {
    mayusculas(sin_espacios(s))
}

/// `s` with each no-break space turned into a plain space.
pub open spec fn nbsp_a_espacio(s: Seq<char>) -> Seq<char> {
    s.map_values(|c: char| if c == nbsp() { ' ' } else { c })
}

/// `s` with every run of plain spaces reduced to one space.
pub open spec fn colapsar(s: Seq<char>) -> Seq<char>
    decreases s.len(),
{
    if s.len() == 0 {
        s
    } else {
        let previo = colapsar(s.drop_last());
        if s.last() == ' ' && s.len() >= 2 && s[s.len() - 2] == ' ' {
            previo
        } else {
            previo.push(s.last())
        }
    }
}

/// A name once cleaned: single spaces, trimmed, in upper case.
pub open spec fn nombre_limpio(s: Seq<char>) -> Seq<char> {
    mayusculas(recortar(colapsar(nbsp_a_espacio(s))))
}

/// Position of the first `c` in `s`, or the length of `s`.
pub open spec fn indice_de(s: Seq<char>, c: char) -> nat
    decreases s.len(),
{
    if s.len() == 0 {
        0
    } else if s[0] == c {
        0
    } else {
        1 + indice_de(s.drop_first(), c)
    }
}

/// The first RUT of a list "RUT1/RUT2/...", trimmed.
pub open spec fn primer_rut_spec(s: Seq<char>) -> Seq<char> {
    recortar(s.take(indice_de(s, '/') as int))
}

/// Whether `" Y "` starts at position `i` of `s`.
pub open spec fn y_en(s: Seq<char>, i: int) -> bool {
    &&& 0 <= i
    &&& i + 3 <= s.len()
    &&& s[i] == ' '
    &&& s[i + 1] == 'Y'
    &&& s[i + 2] == ' '
}

/// Position of the first `" Y "` in `s`, if any.
pub open spec fn buscar_y(s: Seq<char>) -> Option<nat>
    decreases s.len(),
{
    if s.len() < 3 {
        None
    } else if y_en(s, 0) {
        Some(0)
    } else {
        match buscar_y(s.drop_first()) {
            Some(k) => Some(k + 1),
            None => None,
        }
    }
}

/// `"NOMBRE1 Y NOMBRE2 Y ..."` becomes `"NOMBRE1 Y OTRO"`; other names stay.
pub open spec fn primer_nombre_spec(s: Seq<char>) -> Seq<char> {
    match buscar_y(s) {
        Some(p) => recortar(s.take(p as int)) + " Y OTRO"@,
        None => s,
    }
}

/// The transaction kind of a row: column K, trimmed, in upper case.
pub open spec fn tipo_de(f: FilaEntrada) -> Seq<char> {
    mayusculas(recortar(f.tipo@))
}

/// The name given in NOMBRE_PARA, empty when the cell was empty.
pub open spec fn nombre_para_de(f: FilaEntrada) -> Seq<char> {
    match f.nombre_para {
        Some(n) => n@,
        None => Seq::empty(),
    }
}

/// Compareciente 2 of a row, as (RUT, name), or `None` when the row is left
/// out: a COMPRA PARA or normal row whose cleaned name or RUT is empty, or
/// a COMUNIDAD row with neither a name nor a RUT.
pub open spec fn segundo_compareciente(f: FilaEntrada) -> Option<(Seq<char>, Seq<char>)> {
    if tipo_de(f) == "COMPRA PARA"@ {
        let rut = rut_limpio(f.rut_para@);
        let nombre = nombre_limpio(nombre_para_de(f));
        if rut.len() == 0 || nombre.len() == 0 {
            None
        } else {
            Some((rut, nombre))
        }
    } else if tipo_de(f) == "COMUNIDAD"@ {
        if en_blanco(f.rut@) && en_blanco(f.nombre@) {
            None
        } else {
            Some(
                (rut_limpio(primer_rut_spec(f.rut@)), nombre_limpio(primer_nombre_spec(f.nombre@))),
            )
        }
    } else {
        let rut = rut_limpio(f.rut@);
        let nombre = nombre_limpio(f.nombre@);
        if rut.len() == 0 || nombre.len() == 0 {
            None
        } else {
            Some((rut, nombre))
        }
    }
}

/// The warning for a row that is left out.
pub open spec fn aviso_omitida(f: FilaEntrada) -> Seq<char> {
    if tipo_de(f) == "COMPRA PARA"@ {
        "Fila "@ + decimal(f.num_fila_excel as nat)
            + ": COMPRA PARA sin NOMBRE_PARA o RUT_PARA — omitida"@
    } else {
        "Fila "@ + decimal(f.num_fila_excel as nat) + ": NOMBRE o RUT vacío — omitida"@
    }
}

/// An optional cell: absent when it is blank, its text otherwise.
pub open spec fn opcional(s: Seq<char>) -> Option<Seq<char>> {
    if en_blanco(s) {
        None
    } else {
        Some(s)
    }
}

/// The output row for compareciente 2 `(rut, nombre)` of row `f`.
pub open spec fn salida_de(f: FilaEntrada, rut: Seq<char>, nombre: Seq<char>) -> FilaSalidaV {
    FilaSalidaV {
        c1_rut: AUTOFIN_RUT@,
        c1_apellido_paterno: AUTOFIN_NOMBRE@,
        c1_apellido_materno: None,
        c1_nombres: None,
        c2_rut: rut,
        c2_apellido_paterno: nombre,
        c2_apellido_materno: None,
        c2_nombres: None,
        tasacion_fiscal: None,
        precio_venta: None,
        patente: opcional(f.patente@),
        tipo_vehiculo: None,
        marca: None,
        modelo: None,
        anio: None,
        color: None,
        motor: None,
        chasis: None,
        serie: None,
        vin: None,
        codigo_operacion: opcional(f.operacion@),
    }
}

/// What the planilla gets from a batch of rows: the output rows of the rows
/// kept and the warnings of the rows left out, each in input order.
pub open spec fn lote_spec(filas: Seq<FilaEntrada>) -> (Seq<FilaSalidaV>, Seq<Seq<char>>)
    decreases filas.len(),
{
    if filas.len() == 0 {
        (Seq::empty(), Seq::empty())
    } else {
        let (salidas, avisos) = lote_spec(filas.drop_last());
        let f = filas.last();
        match segundo_compareciente(f) {
            Some((rut, nombre)) => (salidas.push(salida_de(f, rut, nombre)), avisos),
            None => (salidas, avisos.push(aviso_omitida(f))),
        }
    }
}

/// What one row gives: its output row, or the warning of a row left out.
pub open spec fn fila_spec(f: FilaEntrada) -> (Option<FilaSalidaV>, Option<Seq<char>>) {
    match segundo_compareciente(f) {
        Some((rut, nombre)) => (Some(salida_de(f, rut, nombre)), None),
        None => (None, Some(aviso_omitida(f))),
    }
}

/// An optional output row by its texts.
pub open spec fn salida_opcional(o: Option<FilaSalida>) -> Option<FilaSalidaV> {
    match o {
        Some(s) => Some(s@),
        None => None,
    }
}

/// The output rows that the rows give one by one, in order.
pub open spec fn salidas_por_fila(filas: Seq<FilaEntrada>) -> Seq<FilaSalidaV>
    decreases filas.len(),
{
    if filas.len() == 0 {
        Seq::empty()
    } else {
        match fila_spec(filas.last()).0 {
            Some(s) => salidas_por_fila(filas.drop_last()).push(s),
            None => salidas_por_fila(filas.drop_last()),
        }
    }
}

/// The warnings that the rows give one by one, in order.
pub open spec fn avisos_por_fila(filas: Seq<FilaEntrada>) -> Seq<Seq<char>>
    decreases filas.len(),
{
    if filas.len() == 0 {
        Seq::empty()
    } else {
        match fila_spec(filas.last()).1 {
            Some(a) => avisos_por_fila(filas.drop_last()).push(a),
            None => avisos_por_fila(filas.drop_last()),
        }
    }
}

// ─── Cleaning ────────────────────────────────────────────────────────────────

/// Removes no-break spaces and white space from a RUT and puts it in upper case.
pub fn limpiar_rut(s: &str) -> (r: String)
    ensures
        r@ == rut_limpio(s@),
        es_ascii(sin_espacios(s@)) ==> r@ == sin_espacios(s@).map_values(
            |c: char| mayuscula_ascii(c),
        ),
{
    let v = caracteres(s);
    let mut w: Vec<char> = Vec::new();
    let mut i: usize = 0;
    while i < v.len()
        invariant
            i <= v.len(),
            v@ == s@,
            w@ == sin_espacios(v@.take(i as int)),
        decreases v.len() - i,
    {
        let c = v[i];
        assert(v@.take(i + 1).drop_last() == v@.take(i as int));
        if c != '\u{00A0}' && !es_espacio(c) {
            w.push(c);
        }
        i = i + 1;
    }
    assert(v@.take(v.len() as int) == v@);
    let t = texto_de(&w);
    a_mayusculas(t.as_str())
}

/// Turns no-break spaces into spaces, collapses runs of spaces, trims and
/// puts the name in upper case.
pub fn limpiar_nombre(s: &str) -> (r: String)
    ensures
        r@ == nombre_limpio(s@),
        es_ascii(recortar(colapsar(nbsp_a_espacio(s@)))) ==> r@ == recortar(
            colapsar(nbsp_a_espacio(s@)),
        ).map_values(|c: char| mayuscula_ascii(c)),
{
    let v = caracteres(s);
    let ghost t = nbsp_a_espacio(s@);
    let mut u: Vec<char> = Vec::new();
    let mut i: usize = 0;
    while i < v.len()
        invariant
            i <= v.len(),
            v@ == s@,
            t == nbsp_a_espacio(s@),
            u@ == t.take(i as int),
        decreases v.len() - i,
    {
        let c = v[i];
        if c == '\u{00A0}' {
            u.push(' ');
        } else {
            u.push(c);
        }
        assert(t.take(i + 1) == t.take(i as int).push(t[i as int]));
        i = i + 1;
    }
    assert(t.take(v.len() as int) == t);
    let mut resultado: Vec<char> = Vec::new();
    let mut prev_espacio = false;
    let mut k: usize = 0;
    while k < u.len()
        invariant
            k <= u.len(),
            resultado@ == colapsar(u@.take(k as int)),
            prev_espacio == (k > 0 && u@[k - 1] == ' '),
        decreases u.len() - k,
    {
        let c = u[k];
        let ghost pre = u@.take(k + 1);
        assert(pre.drop_last() == u@.take(k as int));
        assert(pre.last() == c);
        if k > 0 {
            assert(pre[pre.len() - 2] == u@[k - 1]);
        }
        if c == ' ' {
            if !prev_espacio {
                resultado.push(c);
            }
            prev_espacio = true;
        } else {
            resultado.push(c);
            prev_espacio = false;
        }
        k = k + 1;
    }
    assert(u@.take(u.len() as int) == u@);
    let recortada = recortado(&resultado);
    let texto = texto_de(&recortada);
    a_mayusculas(texto.as_str())
}

/// The position of the first `c`: the first index that holds one, or the
/// length when none does.
pub proof fn lema_indice_de(s: Seq<char>, c: char, k: int)
    requires
        0 <= k <= s.len(),
        forall|j: int| 0 <= j < k ==> s[j] != c,
        k == s.len() || s[k] == c,
    ensures
        indice_de(s, c) == k,
    decreases k,
{
    if k > 0 {
        assert forall|j: int| 0 <= j < k - 1 implies s.drop_first()[j] != c by {
            assert(s.drop_first()[j] == s[j + 1]);
        }
        if k < s.len() {
            assert(s.drop_first()[k - 1] == s[k]);
        }
        lema_indice_de(s.drop_first(), c, k - 1);
    }
}

/// The first RUT of a list "RUT1/RUT2/...", trimmed.
pub fn primer_rut(s: &str) -> (r: String)
    ensures
        r@ == primer_rut_spec(s@),
{
    let v = caracteres(s);
    let mut k: usize = 0;
    while k < v.len() && v[k] != '/'
        invariant
            k <= v.len(),
            forall|j: int| 0 <= j < k ==> v@[j] != '/',
        decreases v.len() - k,
    {
        k = k + 1;
    }
    proof {
        lema_indice_de(v@, '/', k as int);
    }
    let antes = tramo(&v, 0, k);
    assert(antes@ == v@.take(k as int));
    let t = recortado(&antes);
    texto_de(&t)
}

proof fn lema_buscar_y_some(s: Seq<char>, k: int)
    requires
        y_en(s, k),
        forall|j: int| 0 <= j < k ==> !y_en(s, j),
    ensures
        buscar_y(s) == Some(k as nat),
    decreases k,
{
    if k > 0 {
        assert(!y_en(s, 0));
        assert forall|j: int| 0 <= j < k - 1 implies !y_en(s.drop_first(), j) by {
            if y_en(s.drop_first(), j) {
                assert(y_en(s, j + 1));
            }
        }
        assert(y_en(s.drop_first(), k - 1));
        lema_buscar_y_some(s.drop_first(), k - 1);
    }
}

proof fn lema_buscar_y_none(s: Seq<char>)
    requires
        forall|j: int| 0 <= j ==> !y_en(s, j),
    ensures
        buscar_y(s) is None,
    decreases s.len(),
{
    if s.len() >= 3 {
        assert(!y_en(s, 0));
        assert forall|j: int| 0 <= j implies !y_en(s.drop_first(), j) by {
            if y_en(s.drop_first(), j) {
                assert(y_en(s, j + 1));
            }
        }
        lema_buscar_y_none(s.drop_first());
    }
}

/// `"NOMBRE1 Y NOMBRE2 Y ..."` becomes `"NOMBRE1 Y OTRO"`; a name without
/// `" Y "` is returned as it is.
pub fn primer_nombre(s: &str) -> (r: String)
    ensures
        r@ == primer_nombre_spec(s@),
{
    let v = caracteres(s);
    let n = v.len();
    let mut i: usize = 0;
    while n >= 3 && i <= n - 3
        invariant
            n == v.len(),
            v@ == s@,
            forall|j: int| 0 <= j < i ==> !y_en(v@, j),
        decreases n - i,
    {
        if v[i] == ' ' && v[i + 1] == 'Y' && v[i + 2] == ' ' {
            proof {
                lema_buscar_y_some(v@, i as int);
            }
            let antes = tramo(&v, 0, i);
            assert(antes@ == v@.take(i as int));
            let mut t = recortado(&antes);
            assert(t@ == recortar(s@.take(i as int)));
            anexar_str(&mut t, " Y OTRO");
            assert(t@ == primer_nombre_spec(s@));
            return texto_de(&t);
        }
        i = i + 1;
    }
    proof {
        assert forall|j: int| 0 <= j implies !y_en(v@, j) by {
            if j >= i {
                assert(j + 3 > v@.len());
            }
        }
        lema_buscar_y_none(v@);
    }
    s.to_owned()
}

/// Whether a text is empty once trimmed.
pub fn es_vacia(s: &str) -> (r: bool)
    ensures
        r == en_blanco(s@),
{
    let v = caracteres(s);
    esta_en_blanco(&v)
}

// ─── Transformation ──────────────────────────────────────────────────────────

fn mensaje_omitida(num_fila: usize, compra_para: bool) -> (r: String)
    ensures
        r@ == (if compra_para {
            "Fila "@ + decimal(num_fila as nat)
                + ": COMPRA PARA sin NOMBRE_PARA o RUT_PARA — omitida"@
        } else {
            "Fila "@ + decimal(num_fila as nat) + ": NOMBRE o RUT vacío — omitida"@
        }),
{
    let mut v: Vec<char> = Vec::new();
    anexar_str(&mut v, "Fila ");
    anexar_decimal(&mut v, num_fila as u64);
    if compra_para {
        anexar_str(&mut v, ": COMPRA PARA sin NOMBRE_PARA o RUT_PARA — omitida");
    } else {
        anexar_str(&mut v, ": NOMBRE o RUT vacío — omitida");
    }
    texto_de(&v)
}

fn celda_opcional(s: &String) -> (r: Option<String>)
    ensures
        r.deep_view() == opcional(s@),
{
    if es_vacia(s.as_str()) {
        None
    } else {
        Some(s.clone())
    }
}

/// Turns one input row into an output row, or into the warning of a row left
/// out (a COMPRA PARA or normal row without name or RUT, a COMUNIDAD row
/// with neither).
///
/// Compareciente 1 is always AUTOFIN S.A.; compareciente 2 depends on the
/// kind in column K: NOMBRE PARA / RUT PARA for "COMPRA PARA", the first
/// name + " Y OTRO" and the first RUT for "COMUNIDAD", NOMBRE / RUT otherwise.
pub fn transformar_fila(fila: &FilaEntrada) -> (r: (Option<FilaSalida>, Option<String>))
    ensures
        match segundo_compareciente(*fila) {
            Some((rut, nombre)) => {
                &&& r.0 is Some
                &&& r.0.unwrap()@ == salida_de(*fila, rut, nombre)
                &&& r.1 is None
            },
            None => {
                &&& r.0 is None
                &&& r.1 is Some
                &&& r.1.unwrap()@ == aviso_omitida(*fila)
            },
        },
        salida_opcional(r.0) == fila_spec(*fila).0,
        r.1.deep_view() == fila_spec(*fila).1,
{
    let tipo_v = caracteres(fila.tipo.as_str());
    let tipo_r = recortado(&tipo_v);
    let tipo = mayusculas_de(&tipo_r);
    let es_compra_para = es_literal(&tipo, "COMPRA PARA");
    let es_comunidad = es_literal(&tipo, "COMUNIDAD");

    let (c2_rut, c2_apellido_paterno) = if es_compra_para {
        let rut = limpiar_rut(fila.rut_para.as_str());
        let nombre = match &fila.nombre_para {
            Some(n) => limpiar_nombre(n.as_str()),
            None => limpiar_nombre(""),
        };
        proof {
            reveal_strlit("");
            assert(""@ == Seq::<char>::empty());
        }
        if rut.as_str().is_empty() || nombre.as_str().is_empty() {
            return (None, Some(mensaje_omitida(fila.num_fila_excel, true)));
        }
        (rut, nombre)
    } else if es_comunidad {
        if es_vacia(fila.rut.as_str()) && es_vacia(fila.nombre.as_str()) {
            return (None, Some(mensaje_omitida(fila.num_fila_excel, false)));
        }
        let pr = primer_rut(fila.rut.as_str());
        let rut = limpiar_rut(pr.as_str());
        let pn = primer_nombre(fila.nombre.as_str());
        let nombre = limpiar_nombre(pn.as_str());
        (rut, nombre)
    } else {
        let rut = limpiar_rut(fila.rut.as_str());
        let nombre = limpiar_nombre(fila.nombre.as_str());
        if rut.as_str().is_empty() || nombre.as_str().is_empty() {
            return (None, Some(mensaje_omitida(fila.num_fila_excel, false)));
        }
        (rut, nombre)
    };

    let patente = celda_opcional(&fila.patente);
    let codigo_operacion = celda_opcional(&fila.operacion);

    let salida = FilaSalida {
        c1_rut: AUTOFIN_RUT.to_owned(),
        c1_apellido_paterno: AUTOFIN_NOMBRE.to_owned(),
        c1_apellido_materno: None,
        c1_nombres: None,
        c2_rut,
        c2_apellido_paterno,
        c2_apellido_materno: None,
        c2_nombres: None,
        tasacion_fiscal: None,
        precio_venta: None,
        patente,
        tipo_vehiculo: None,
        marca: None,
        modelo: None,
        anio: None,
        color: None,
        motor: None,
        chasis: None,
        serie: None,
        vin: None,
        codigo_operacion,
    };
    (Some(salida), None)
}

/// Transforms a batch of rows: the output rows of the rows kept and the
/// warnings of the rows left out, both in input order.
pub fn transformar_lote(filas: &[FilaEntrada]) -> (r: (Vec<FilaSalida>, Vec<String>))
    ensures
        r.0@.map_values(|s: FilaSalida| s@) == lote_spec(filas@).0,
        r.1@.map_values(|a: String| a@) == lote_spec(filas@).1,
{
    let mut salidas: Vec<FilaSalida> = Vec::new();
    let mut avisos: Vec<String> = Vec::new();
    let mut i: usize = 0;
    while i < filas.len()
        invariant
            i <= filas.len(),
            salidas@.map_values(|s: FilaSalida| s@) == lote_spec(filas@.take(i as int)).0,
            avisos@.map_values(|a: String| a@) == lote_spec(filas@.take(i as int)).1,
        decreases filas.len() - i,
    {
        let (salida, aviso) = transformar_fila(&filas[i]);
        let ghost pre = filas@.take(i + 1);
        assert(pre.drop_last() == filas@.take(i as int));
        assert(pre.last() == filas@[i as int]);
        match salida {
            Some(s) => {
                salidas.push(s);
            },
            None => {},
        }
        match aviso {
            Some(a) => {
                avisos.push(a);
            },
            None => {},
        }
        assert(salidas@.map_values(|s: FilaSalida| s@) =~= lote_spec(pre).0);
        assert(avisos@.map_values(|a: String| a@) =~= lote_spec(pre).1);
        i = i + 1;
    }
    assert(filas@.take(filas.len() as int) == filas@);
    (salidas, avisos)
}

// ─── Laws ────────────────────────────────────────────────────────────────────

/// Every row of a batch gives either an output row or a warning, never both
/// and never neither: the counts add up to the number of rows.
pub proof fn ley_lote_cuenta(filas: Seq<FilaEntrada>)
    ensures
        lote_spec(filas).0.len() + lote_spec(filas).1.len() == filas.len(),
    decreases filas.len(),
{
    if filas.len() > 0 {
        ley_lote_cuenta(filas.drop_last());
    }
}

/// Compareciente 1 of every output row is AUTOFIN S.A., RUT 76139506-8.
pub proof fn ley_lote_autofin(filas: Seq<FilaEntrada>)
    ensures
        forall|i: int|
            0 <= i < lote_spec(filas).0.len() ==> {
                &&& (#[trigger] lote_spec(filas).0[i]).c1_rut == AUTOFIN_RUT@
                &&& lote_spec(filas).0[i].c1_apellido_paterno == AUTOFIN_NOMBRE@
                &&& lote_spec(filas).0[i].c1_apellido_materno is None
                &&& lote_spec(filas).0[i].c1_nombres is None
            },
    decreases filas.len(),
{
    if filas.len() > 0 {
        ley_lote_autofin(filas.drop_last());
        let prev = lote_spec(filas.drop_last());
        assert forall|i: int| 0 <= i < lote_spec(filas).0.len() implies {
            &&& (#[trigger] lote_spec(filas).0[i]).c1_rut == AUTOFIN_RUT@
            &&& lote_spec(filas).0[i].c1_apellido_paterno == AUTOFIN_NOMBRE@
            &&& lote_spec(filas).0[i].c1_apellido_materno is None
            &&& lote_spec(filas).0[i].c1_nombres is None
        } by {
            if i < prev.0.len() {
                assert(lote_spec(filas).0[i] == prev.0[i]);
            }
        }
    }
}

/// Transforming two batches one after the other gives what transforming
/// them as one batch gives: rows and warnings are concatenated in order.
pub proof fn ley_lote_concatena(a: Seq<FilaEntrada>, b: Seq<FilaEntrada>)
    ensures
        lote_spec(a + b).0 == lote_spec(a).0 + lote_spec(b).0,
        lote_spec(a + b).1 == lote_spec(a).1 + lote_spec(b).1,
    decreases b.len(),
{
    if b.len() == 0 {
        assert(a + b == a);
        assert(lote_spec(a).0 + lote_spec(b).0 == lote_spec(a).0);
        assert(lote_spec(a).1 + lote_spec(b).1 == lote_spec(a).1);
    } else {
        ley_lote_concatena(a, b.drop_last());
        assert((a + b).drop_last() == a + b.drop_last());
        assert((a + b).last() == b.last());
        let (sa, aa) = lote_spec(a);
        let (sb, ab) = lote_spec(b.drop_last());
        match segundo_compareciente(b.last()) {
            Some((rut, nombre)) => {
                assert((sa + sb).push(salida_de(b.last(), rut, nombre)) == sa + sb.push(
                    salida_de(b.last(), rut, nombre),
                ));
            },
            None => {
                assert((aa + ab).push(aviso_omitida(b.last())) == aa + ab.push(
                    aviso_omitida(b.last()),
                ));
            },
        }
    }
}

/// A row of kind COMUNIDAD is left out exactly when it has neither a name
/// nor a RUT.
pub proof fn ley_comunidad_se_conserva(f: FilaEntrada)
    requires
        tipo_de(f) == "COMUNIDAD"@,
    ensures
        segundo_compareciente(f) is None <==> (en_blanco(f.rut@) && en_blanco(f.nombre@)),
{
    if tipo_de(f) == "COMPRA PARA"@ {
        reveal_strlit("COMUNIDAD");
        reveal_strlit("COMPRA PARA");
        assert("COMUNIDAD"@[3] != "COMPRA PARA"@[3]);
    }
}

/// A kept row of kind COMPRA PARA or of the normal kind has a RUT and a name
/// that are not empty.
pub proof fn ley_compareciente_no_vacio(f: FilaEntrada)
    requires
        tipo_de(f) != "COMUNIDAD"@,
        segundo_compareciente(f) is Some,
    ensures
        segundo_compareciente(f).unwrap().0.len() > 0,
        segundo_compareciente(f).unwrap().1.len() > 0,
{
}

/// Cleaning a RUT removes every white space and no-break space.
pub proof fn ley_sin_espacios(s: Seq<char>)
    ensures
        forall|i: int|
            0 <= i < sin_espacios(s).len() ==> {
                &&& !espacio(#[trigger] sin_espacios(s)[i])
                &&& sin_espacios(s)[i] != nbsp()
            },
        sin_espacios(sin_espacios(s)) == sin_espacios(s),
    decreases s.len(),
{
    if s.len() > 0 {
        ley_sin_espacios(s.drop_last());
        let p = sin_espacios(s.drop_last());
        if s.last() != nbsp() && !espacio(s.last()) {
            assert(p.push(s.last()).drop_last() == p);
        }
    }
}

/// After collapsing, no two spaces stand side by side.
pub proof fn ley_colapsar(s: Seq<char>)
    ensures
        forall|i: int|
            0 <= i < colapsar(s).len() - 1 ==> !(#[trigger] colapsar(s)[i] == ' ' && colapsar(
                s,
            )[i + 1] == ' '),
        colapsar(s).len() > 0 ==> colapsar(s).last() == s.last(),
        colapsar(s).len() == 0 ==> s.len() == 0,
    decreases s.len(),
{
    if s.len() > 0 {
        ley_colapsar(s.drop_last());
        let p = colapsar(s.drop_last());
        if s.len() >= 2 {
            assert(s.drop_last().last() == s[s.len() - 2]);
        }
        if !(s.last() == ' ' && s.len() >= 2 && s[s.len() - 2] == ' ') {
            assert forall|i: int| 0 <= i < p.push(s.last()).len() - 1 implies !(#[trigger] p.push(
                s.last(),
            )[i] == ' ' && p.push(s.last())[i + 1] == ' ') by {
                if i < p.len() - 1 {
                    assert(p.push(s.last())[i] == p[i]);
                    assert(p.push(s.last())[i + 1] == p[i + 1]);
                }
            }
        }
    }
}


/// A batch gives exactly what its rows give one by one: the output rows of
/// the rows kept and the warnings of the rows left out, each in input order.
pub proof fn ley_lote_por_filas(filas: Seq<FilaEntrada>)
    ensures
        lote_spec(filas).0 == salidas_por_fila(filas),
        lote_spec(filas).1 == avisos_por_fila(filas),
    decreases filas.len(),
{
    if filas.len() > 0 {
        ley_lote_por_filas(filas.drop_last());
    }
}

} // verus!
