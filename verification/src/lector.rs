//! Reading the rows of the AUTOFIN SP input spreadsheet.

use vstd::prelude::*;

use crate::modelos::{Celda, FilaEntrada, FilaEntradaV};
use crate::texto::{
    anexar_decimal, anexar_entero, anexar_str, caracteres, decimal, decimal_con_signo, recortado,
    recortar, texto_de,
};

verus! {

/// Column of the row number.
pub const COL_NUM: usize = 0;
/// Column of the buyer's name.
pub const COL_NOMBRE: usize = 1;
/// Column of the buyer's RUT.
pub const COL_RUT: usize = 2;
/// Column of the name of whom the purchase is for.
pub const COL_NOMBRE_PARA: usize = 3;
/// Column of the RUT of whom the purchase is for.
pub const COL_RUT_PARA: usize = 4;
/// Column of the operation code.
pub const COL_OPERACION: usize = 5;
/// Column of the licence plate.
pub const COL_PATENTE: usize = 6;
/// Column K: the kind of transaction.
pub const COL_TIPO: usize = 10;
/// The fewest columns an input sheet may have.
pub const MIN_COLS: usize = 11;

/// The optional text of a cell: text trimmed (absent when blank), numbers
/// as integers, booleans as `true`/`false`, nothing for other cells.
pub open spec fn opcional_de_celda(c: Celda) -> Option<Seq<char>> {
    match c {
        Celda::Texto(s) => if recortar(s@).len() == 0 {
            None
        } else {
            Some(recortar(s@))
        },
        Celda::Decimal { truncado, menor_que_uno } => Some(decimal_con_signo(truncado as int)),
        Celda::Entero(i) => Some(decimal_con_signo(i as int)),
        Celda::Logico(b) => Some(
            if b {
                "true"@
            } else {
                "false"@
            },
        ),
        _ => None,
    }
}

/// The text of a cell, empty when it has none.
pub open spec fn requerido_de_celda(c: Celda) -> Seq<char> {
    match opcional_de_celda(c) {
        Some(t) => t,
        None => Seq::empty(),
    }
}

/// A row whose cells are all empty.
pub open spec fn fila_vacia(fila: Seq<Celda>) -> bool {
    forall|i: int| 0 <= i < fila.len() ==> #[trigger] fila[i] == Celda::Vacia
}

/// The text at column `i`, empty when the row does not reach it.
pub open spec fn req_en(fila: Seq<Celda>, i: int) -> Seq<char> {
    if 0 <= i < fila.len() {
        requerido_de_celda(fila[i])
    } else {
        Seq::empty()
    }
}

/// The number in column 0 (integer part of a number cell), 0 otherwise.
pub open spec fn numero_de_fila(fila: Seq<Celda>) -> i64 {
    if fila.len() > 0 {
        match fila[0] {
            Celda::Decimal { truncado, menor_que_uno } => truncado,
            Celda::Entero(i) => i,
            _ => 0,
        }
    } else {
        0
    }
}

/// The input row read from sheet row `idx` (0-based; the number kept is
/// the 1-based Excel row).
pub open spec fn fila_entrada_de(fila: Seq<Celda>, idx: nat) -> FilaEntradaV {
    FilaEntradaV {
        numero: numero_de_fila(fila),
        nombre: req_en(fila, 1),
        rut: req_en(fila, 2),
        nombre_para: if 3 < fila.len() {
            opcional_de_celda(fila[3])
        } else {
            None
        },
        rut_para: req_en(fila, 4),
        operacion: req_en(fila, 5),
        patente: req_en(fila, 6),
        tipo: req_en(fila, 10),
        num_fila_excel: (idx + 1) as usize,
    }
}

/// The input rows of a sheet: every row after the header that is not
/// entirely empty, in order.
pub open spec fn filas_leidas(filas: Seq<Seq<Celda>>) -> Seq<FilaEntradaV>
    decreases filas.len(),
{
    if filas.len() <= 1 {
        Seq::empty()
    } else {
        let previas = filas_leidas(filas.drop_last());
        if fila_vacia(filas.last()) {
            previas
        } else {
            previas.push(fila_entrada_de(filas.last(), (filas.len() - 1) as nat))
        }
    }
}

/// The error for a sheet with too few columns.
pub open spec fn error_columnas(ancho: nat) -> Seq<char> {
    "El archivo tiene "@ + decimal(ancho) + " columnas; se requieren al menos "@ + decimal(
        MIN_COLS as nat,
    )
}

/// The optional text of a cell.
pub fn str_o_none(c: &Celda) -> (r: Option<String>)
    ensures
        r.deep_view() == opcional_de_celda(*c),
{
    match c {
        Celda::Texto(s) => {
            let t = recortado(&caracteres(s.as_str()));
            if t.len() == 0 {
                None
            } else {
                Some(texto_de(&t))
            }
        },
        Celda::Decimal { truncado, menor_que_uno: _ } => {
            let mut v: Vec<char> = Vec::new();
            anexar_entero(&mut v, *truncado);
            Some(texto_de(&v))
        },
        Celda::Entero(i) => {
            let mut v: Vec<char> = Vec::new();
            anexar_entero(&mut v, *i);
            Some(texto_de(&v))
        },
        Celda::Logico(b) => Some(
            if *b {
                "true".to_owned()
            } else {
                "false".to_owned()
            },
        ),
        _ => None,
    }
}

/// The text of a cell, empty when it has none.
pub fn str_req(c: &Celda) -> (r: String)
    ensures
        r@ == requerido_de_celda(*c),
{
    match str_o_none(c) {
        Some(t) => t,
        None => String::new(),
    }
}

/// Whether every cell of the row is empty.
pub fn es_fila_vacia(fila: &Vec<Celda>) -> (r: bool)
    ensures
        r == fila_vacia(fila@),
{
    let mut i: usize = 0;
    while i < fila.len()
        invariant
            i <= fila@.len(),
            forall|k: int| 0 <= k < i ==> #[trigger] fila@[k] == Celda::Vacia,
        decreases fila@.len() - i,
    {
        match &fila[i] {
            Celda::Vacia => {},
            _ => {
                return false;
            },
        }
        i = i + 1;
    }
    true
}

fn req_en_exec(fila: &Vec<Celda>, i: usize) -> (r: String)
    ensures
        r@ == req_en(fila@, i as int),
{
    if i < fila.len() {
        str_req(&fila[i])
    } else {
        String::new()
    }
}

fn fila_entrada_exec(fila: &Vec<Celda>, idx: usize) -> (r: FilaEntrada)
    requires
        idx < usize::MAX,
    ensures
        r@ == fila_entrada_de(fila@, idx as nat),
{
    let numero: i64 = if fila.len() > 0 {
        match &fila[0] {
            Celda::Decimal { truncado, menor_que_uno: _ } => *truncado,
            Celda::Entero(i) => *i,
            _ => 0,
        }
    } else {
        0
    };
    let nombre_para = if COL_NOMBRE_PARA < fila.len() {
        str_o_none(&fila[COL_NOMBRE_PARA])
    } else {
        None
    };
    FilaEntrada {
        numero,
        nombre: req_en_exec(fila, COL_NOMBRE),
        rut: req_en_exec(fila, COL_RUT),
        nombre_para,
        rut_para: req_en_exec(fila, COL_RUT_PARA),
        operacion: req_en_exec(fila, COL_OPERACION),
        patente: req_en_exec(fila, COL_PATENTE),
        tipo: req_en_exec(fila, COL_TIPO),
        num_fila_excel: idx + 1,
    }
}

/// The input rows of the first sheet, given its width and its rows: an
/// error when it has fewer than 11 columns; otherwise every non-empty row
/// after the header.
pub fn filas_de_hoja(ancho: usize, filas: &Vec<Vec<Celda>>) -> (r: Result<Vec<FilaEntrada>, String>)
    ensures
        ancho < MIN_COLS ==> (r matches Err(e) && e@ == error_columnas(ancho as nat)),
        ancho >= MIN_COLS ==> (r matches Ok(v) && v@.map_values(|f: FilaEntrada| f@)
            == filas_leidas(filas@.map_values(|f: Vec<Celda>| f@))),
{
    if ancho < MIN_COLS {
        let mut v: Vec<char> = Vec::new();
        anexar_str(&mut v, "El archivo tiene ");
        anexar_decimal(&mut v, ancho as u64);
        anexar_str(&mut v, " columnas; se requieren al menos ");
        anexar_decimal(&mut v, MIN_COLS as u64);
        return Err(texto_de(&v));
    }
    let ghost fv = filas@.map_values(|f: Vec<Celda>| f@);
    let mut r: Vec<FilaEntrada> = Vec::new();
    if filas.len() == 0 {
        assert(r@.map_values(|f: FilaEntrada| f@) =~= filas_leidas(fv));
        return Ok(r);
    }
    let mut i: usize = 1;
    assert(fv.take(1).len() == 1);
    assert(r@.map_values(|f: FilaEntrada| f@) =~= filas_leidas(fv.take(1)));
    while i < filas.len()
        invariant
            1 <= i <= filas@.len(),
            fv == filas@.map_values(|f: Vec<Celda>| f@),
            r@.map_values(|f: FilaEntrada| f@) == filas_leidas(fv.take(i as int)),
        decreases filas@.len() - i,
    {
        let ghost pre = fv.take(i + 1);
        assert(pre.drop_last() == fv.take(i as int));
        assert(pre.last() == filas@[i as int]@);
        if !es_fila_vacia(&filas[i]) {
            let f = fila_entrada_exec(&filas[i], i);
            r.push(f);
        }
        assert(r@.map_values(|f: FilaEntrada| f@) =~= filas_leidas(pre));
        i = i + 1;
    }
    assert(fv.take(filas@.len() as int) == fv);
    Ok(r)
}

/// What reading several files gives, each file's rows or the error it
/// gave: all rows in file order, and one message "ruta: error" per file
/// that failed.
pub open spec fn multiples_spec(rutas: Seq<Seq<char>>, lecturas: Seq<Result<Seq<FilaEntrada>, Seq<char>>>) -> (
    Seq<FilaEntrada>,
    Seq<Seq<char>>,
)
    decreases lecturas.len(),
{
    if lecturas.len() == 0 {
        (Seq::empty(), Seq::empty())
    } else {
        let (todas, errores) = multiples_spec(rutas.drop_last(), lecturas.drop_last());
        match lecturas.last() {
            Ok(filas) => (todas + filas, errores),
            Err(e) => (todas, errores.push(rutas.last() + ": "@ + e)),
        }
    }
}

/// The reading of each file by its plain content.
pub open spec fn lecturas_v(lecturas: Seq<Result<Vec<FilaEntrada>, String>>) -> Seq<
    Result<Seq<FilaEntrada>, Seq<char>>,
> {
    lecturas.map_values(
        |l: Result<Vec<FilaEntrada>, String>|
            match l {
                Ok(v) => Ok(v@),
                Err(e) => Err(e@),
            },
    )
}

/// Gathers the readings of several files (one per path, in the same
/// order): all rows read, and "ruta: error" for each file that failed.
pub fn leer_multiples(rutas: &Vec<String>, lecturas: Vec<Result<Vec<FilaEntrada>, String>>) -> (r: (
    Vec<FilaEntrada>,
    Vec<String>,
))
    requires
        rutas@.len() == lecturas@.len(),
    ensures
        r.0@ == multiples_spec(rutas@.map_values(|s: String| s@), lecturas_v(lecturas@)).0,
        r.1@.map_values(|s: String| s@) == multiples_spec(
            rutas@.map_values(|s: String| s@),
            lecturas_v(lecturas@),
        ).1,
{
    let ghost rv = rutas@.map_values(|s: String| s@);
    let ghost lv = lecturas_v(lecturas@);
    let mut todas: Vec<FilaEntrada> = Vec::new();
    let mut errores: Vec<String> = Vec::new();
    let mut i: usize = 0;
    for lectura in it: lecturas.into_iter()
        invariant
            i == it.index(),
            it.seq() == lecturas@,
            i <= rutas@.len(),
            rutas@.len() == lv.len(),
            lv == lecturas_v(lecturas@),
            rv == rutas@.map_values(|s: String| s@),
            todas@ == multiples_spec(rv.take(i as int), lv.take(i as int)).0,
            errores@.map_values(|s: String| s@) == multiples_spec(rv.take(i as int), lv.take(i as int)).1,
    {
        assert(i < rutas@.len());
        let ghost prer = rv.take(i + 1);
        let ghost prel = lv.take(i + 1);
        assert(prer.drop_last() == rv.take(i as int));
        assert(prel.drop_last() == lv.take(i as int));
        assert(prer.last() == rutas@[i as int]@);
        assert(prel.last() == lv[i as int]);
        match lectura {
            Ok(filas) => {
                let mut filas = filas;
                todas.append(&mut filas);
            },
            Err(e) => {
                let mut v: Vec<char> = caracteres(rutas[i].as_str());
                anexar_str(&mut v, ": ");
                anexar_str(&mut v, e.as_str());
                errores.push(texto_de(&v));
            },
        }
        assert(errores@.map_values(|s: String| s@) =~= multiples_spec(prer, prel).1);
        assert(todas@ =~= multiples_spec(prer, prel).0);
        let n = rutas.len();
        if i < n {
            i = i + 1;
        }
    }
    assert(rv.take(rutas@.len() as int) == rv);
    assert(lv.take(rutas@.len() as int) == lv);
    (todas, errores)
}


/// Each field of a read row comes from its column of the AUTOFIN SP sheet:
/// N° in A, NOMBRE in B, RUT in C, NOMBRE PARA in D (absent when blank), RUT
/// PARA in E, operation in F, patente in G and the kind in K.
pub proof fn ley_columnas_de_entrada(fila: Seq<Celda>, idx: nat)
    ensures
        COL_NUM == 0 && COL_NOMBRE == 1 && COL_RUT == 2 && COL_NOMBRE_PARA == 3 && COL_RUT_PARA
            == 4 && COL_OPERACION == 5 && COL_PATENTE == 6 && COL_TIPO == 10,
        fila_entrada_de(fila, idx).nombre == req_en(fila, COL_NOMBRE as int),
        fila_entrada_de(fila, idx).rut == req_en(fila, COL_RUT as int),
        fila_entrada_de(fila, idx).nombre_para == (if (COL_NOMBRE_PARA as int) < fila.len() {
            opcional_de_celda(fila[COL_NOMBRE_PARA as int])
        } else {
            None
        }),
        fila_entrada_de(fila, idx).rut_para == req_en(fila, COL_RUT_PARA as int),
        fila_entrada_de(fila, idx).operacion == req_en(fila, COL_OPERACION as int),
        fila_entrada_de(fila, idx).patente == req_en(fila, COL_PATENTE as int),
        fila_entrada_de(fila, idx).tipo == req_en(fila, COL_TIPO as int),
        fila.len() > COL_NUM ==> (fila[COL_NUM as int] matches Celda::Entero(i) ==> fila_entrada_de(
            fila,
            idx,
        ).numero == i),
        idx + 1 <= usize::MAX ==> fila_entrada_de(fila, idx).num_fila_excel == idx + 1,
{
}

} // verus!
