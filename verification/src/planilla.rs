//! Loading the AUTOFIN SP spreadsheets into a planilla, naming it and
//! laying its rows out in columns.

use vstd::prelude::*;

use crate::almacenamiento::componente_simple;
use crate::fechas::{ahora_local, formato_fecha, instante_valido, escribir_fecha, Instante};
use crate::lector::{leer_multiples, lecturas_v, multiples_spec};
use crate::modelos::{
    EstadoPlanilla, FilaEntrada, FilaResumen, FilaSalida, FilaSalidaV, ResultadoCargaPlanilla,
};
use crate::patrones::{primera_coincidencia, reemplazar_todo, regex_busqueda, regex_reemplazo};
use crate::texto::{
    anexar_decimal_relleno, anexar_str, caracteres, decimal_relleno, texto_de, unir, unir_textos,
    vistas,
};
use crate::impresion::{tallo, ultimo_componente};
use crate::transformador::{lote_spec, transformar_lote};

verus! {

/// A date d-m-yyyy or d/m/yyyy inside a file name.
pub const RE_FECHA1: &'static str = "\\d{1,2}[-/]\\d{1,2}[-/]\\d{4}";

/// A date yyyy-m-d or yyyy/m/d inside a file name.
pub const RE_FECHA2: &'static str = "\\d{4}[-/]\\d{1,2}[-/]\\d{1,2}";

/// A run of digits.
pub const RE_NUM: &'static str = "\\d+";

/// `texto` with every match of `patron` removed (unchanged if the pattern
/// does not compile).
pub open spec fn sin_patron(patron: Seq<char>, texto: Seq<char>) -> Seq<char> {
    match regex_reemplazo(patron, texto, Seq::empty()) {
        Some(t) => t,
        None => texto,
    }
}

/// The SP number in a file name: the first run of digits once the dates
/// are removed.
pub open spec fn numero_sp_spec(nombre: Seq<char>) -> Option<Seq<char>> {
    regex_busqueda(RE_NUM@, sin_patron(RE_FECHA2@, sin_patron(RE_FECHA1@, nombre)))
}

/// The SP numbers of the names that have one, in order.
pub open spec fn numeros_sp(nombres: Seq<Seq<char>>) -> Seq<Seq<char>>
    decreases nombres.len(),
{
    if nombres.len() == 0 {
        Seq::empty()
    } else {
        match numero_sp_spec(nombres.last()) {
            Some(n) => numeros_sp(nombres.drop_last()).push(n),
            None => numeros_sp(nombres.drop_last()),
        }
    }
}

/// The planilla's SP prefix: the SP numbers joined by "_".
pub open spec fn prefijo_sp_spec(nombres: Seq<Seq<char>>) -> Seq<char> {
    unir(numeros_sp(nombres), "_"@)
}

fn quitar_patron(patron: &str, texto: String) -> (r: String)
    ensures
        r@ == sin_patron(patron@, texto@),
{
    proof {
        reveal_strlit("");
        assert(""@ =~= Seq::<char>::empty());
    }
    match reemplazar_todo(patron, texto.as_str(), "") {
        Some(t) => t,
        None => texto,
    }
}

/// The SP number in a file name (without extension), if it has one.
pub fn numero_sp_de_nombre(nombre: &str) -> (r: Option<String>)
    ensures
        r.deep_view() == numero_sp_spec(nombre@),
{
    let a = quitar_patron(RE_FECHA1, nombre.to_owned());
    let b = quitar_patron(RE_FECHA2, a);
    primera_coincidencia(RE_NUM, b.as_str())
}

/// The SP prefix from the file names (without extension).
pub fn numero_sp_de_nombres(nombres: &Vec<String>) -> (r: String)
    ensures
        r@ == prefijo_sp_spec(nombres@.map_values(|n: String| n@)),
{
    let ghost nv = nombres@.map_values(|n: String| n@);
    let mut numeros: Vec<String> = Vec::new();
    let mut i: usize = 0;
    while i < nombres.len()
        invariant
            i <= nombres@.len(),
            nv == nombres@.map_values(|n: String| n@),
            numeros@.map_values(|n: String| n@) == numeros_sp(nv.take(i as int)),
        decreases nombres@.len() - i,
    {
        let ghost pre = nv.take(i + 1);
        assert(pre.drop_last() == nv.take(i as int));
        assert(pre.last() == nombres@[i as int]@);
        match numero_sp_de_nombre(nombres[i].as_str()) {
            Some(n) => {
                numeros.push(n);
            },
            None => {},
        }
        assert(numeros@.map_values(|n: String| n@) =~= numeros_sp(pre));
        i = i + 1;
    }
    assert(nv.take(nombres@.len() as int) == nv);
    unir_textos(&numeros, "_")
}

/// A path that every platform splits alike: no backslash, no drive colon,
/// not starting with "//" (a network share on Windows), and ending in a
/// simple file name after its last "/".
pub open spec fn ruta_portable(s: Seq<char>) -> bool {
    &&& forall|i: int| 0 <= i < s.len() ==> s[i] != '\\' && s[i] != ':'
    &&& !(s.len() >= 2 && s[0] == '/' && s[1] == '/')
    &&& componente_simple(ultimo_componente(s))
}

/// `Path::file_stem`: the file name of a path without its extension. What
/// counts as a separator and as a prefix depends on the platform; for a
/// portable path the stem is stated: its file name up to the last dot,
/// unless that dot comes first.
#[verifier::external_body]
fn tallo_de_ruta(ruta: &str) -> (r: Option<String>)
    ensures
        ruta_portable(ruta@) ==> r.deep_view() == Some(tallo(ultimo_componente(ruta@))),
{
    std::path::Path::new(ruta).file_stem().map(|s| s.to_string_lossy().into_owned())
}

/// `Path::file_name`: the last component of a path. As for `tallo_de_ruta`,
/// only a portable path's result is stated: what follows its last "/".
#[verifier::external_body]
pub(crate) fn nombre_de_ruta(ruta: &str) -> (r: Option<String>)
    ensures
        ruta_portable(ruta@) ==> r.deep_view() == Some(ultimo_componente(ruta@)),
{
    std::path::Path::new(ruta).file_name().map(|s| s.to_string_lossy().into_owned())
}

/// Every path is portable.
pub open spec fn rutas_portables(rutas: Seq<Seq<char>>) -> bool {
    forall|i: int| 0 <= i < rutas.len() ==> ruta_portable(#[trigger] rutas[i])
}

/// The stems of the file names of portable paths.
pub open spec fn tallos(rutas: Seq<Seq<char>>) -> Seq<Seq<char>> {
    rutas.map_values(|n: Seq<char>| tallo(ultimo_componente(n)))
}

/// The SP prefix of a set of input files: the SP number of each file name,
/// joined by "_".
pub fn extraer_numero_sp(rutas: &Vec<String>) -> (r: String)
    ensures
        exists|nombres: Seq<Seq<char>>|
            nombres.len() == rutas@.len() && r@ == #[trigger] prefijo_sp_spec(nombres),
        rutas_portables(vistas(rutas@)) ==> r@ == prefijo_sp_spec(tallos(vistas(rutas@))),
{
    let mut nombres: Vec<String> = Vec::new();
    let mut i: usize = 0;
    while i < rutas.len()
        invariant
            i <= rutas@.len(),
            nombres@.len() == i,
            forall|j: int|
                0 <= j < i && ruta_portable(rutas@[j]@) ==> (#[trigger] nombres@[j])@ == tallo(
                    ultimo_componente(rutas@[j]@),
                ),
        decreases rutas@.len() - i,
    {
        let t = match tallo_de_ruta(rutas[i].as_str()) {
            Some(t) => t,
            None => String::new(),
        };
        nombres.push(t);
        i = i + 1;
    }
    let r = numero_sp_de_nombres(&nombres);
    assert(nombres@.map_values(|n: String| n@).len() == rutas@.len());
    proof {
        if rutas_portables(vistas(rutas@)) {
            assert(nombres@.map_values(|n: String| n@) =~= tallos(vistas(rutas@))) by {
                assert forall|j: int| 0 <= j < rutas@.len() implies nombres@.map_values(
                    |n: String| n@,
                )[j] == tallos(vistas(rutas@))[j] by {
                    assert(vistas(rutas@)[j] == rutas@[j]@);
                    assert(ruta_portable(vistas(rutas@)[j]));
                }
            }
        }
    }
    r
}

// ─── Loading ─────────────────────────────────────────────────────────────────

/// The summary line of an output row: compareciente 2's RUT and name.
pub open spec fn resumen_de(s: FilaSalidaV) -> (Seq<char>, Seq<char>, Seq<char>) {
    (s.c2_rut, s.c2_apellido_paterno, s.c2_rut)
}

/// The plain content of a summary line.
pub open spec fn resumen_v(f: FilaResumen) -> (Seq<char>, Seq<char>, Seq<char>) {
    (f.n@, f.nombre@, f.rut@)
}

/// What loading does with the readings of the files: with rows read, the
/// planilla takes the transformed rows and the prefix, and the result lists
/// the summary and the warnings (read errors first); with no row read and
/// some read error, the result is that error and the planilla is unchanged.
pub open spec fn carga_correcta(
    nombre: Seq<char>,
    prefijo: Seq<char>,
    rutas: Seq<Seq<char>>,
    lecturas: Seq<Result<Seq<FilaEntrada>, Seq<char>>>,
    antes: EstadoPlanilla,
    despues: EstadoPlanilla,
    r: ResultadoCargaPlanilla,
) -> bool {
    let (todas, errores) = multiples_spec(rutas, lecturas);
    if errores.len() > 0 && todas.len() == 0 {
        &&& !r.ok
        &&& r.nombre@ == nombre
        &&& r.filas@.len() == 0
        &&& r.avisos@.len() == 0
        &&& r.error.deep_view() == Some(unir(errores, "; "@))
        &&& despues == antes
    } else {
        let (salidas, avisos) = lote_spec(todas);
        &&& r.ok
        &&& r.nombre@ == nombre
        &&& r.error is None
        &&& r.avisos@.map_values(|a: String| a@) == errores + avisos
        &&& r.filas@.map_values(|f: FilaResumen| resumen_v(f)) == salidas.map_values(
            |s: FilaSalidaV| resumen_de(s),
        )
        &&& despues.filas@.map_values(|s: FilaSalida| s@) == salidas
        &&& despues.prefijo_sp@ == prefijo
    }
}

/// Loads the readings of the input files into the planilla, given the name
/// of the first file and the SP prefix.
pub fn resultado_carga(
    nombre: String,
    prefijo: String,
    rutas: &Vec<String>,
    lecturas: Vec<Result<Vec<FilaEntrada>, String>>,
    estado: &mut EstadoPlanilla,
) -> (r: ResultadoCargaPlanilla)
    requires
        rutas@.len() == lecturas@.len(),
    ensures
        carga_correcta(
            nombre@,
            prefijo@,
            rutas@.map_values(|s: String| s@),
            lecturas_v(lecturas@),
            *old(estado),
            *final(estado),
            r,
        ),
{
    let ghost lv = lecturas_v(lecturas@);
    let (filas_entrada, errores_lectura) = leer_multiples(rutas, lecturas);
    if errores_lectura.len() > 0 && filas_entrada.len() == 0 {
        let error = unir_textos(&errores_lectura, "; ");
        return ResultadoCargaPlanilla {
            ok: false,
            nombre,
            filas: Vec::new(),
            avisos: Vec::new(),
            error: Some(error),
        };
    }
    let (filas_salida, avisos) = transformar_lote(filas_entrada.as_slice());
    let ghost sv = filas_salida@.map_values(|s: FilaSalida| s@);
    let mut resumen: Vec<FilaResumen> = Vec::new();
    let mut i: usize = 0;
    while i < filas_salida.len()
        invariant
            i <= filas_salida@.len(),
            sv == filas_salida@.map_values(|s: FilaSalida| s@),
            resumen@.map_values(|f: FilaResumen| resumen_v(f)) == sv.take(i as int).map_values(
                |s: FilaSalidaV| resumen_de(s),
            ),
        decreases filas_salida@.len() - i,
    {
        let f = &filas_salida[i];
        assert(sv[i as int] == filas_salida@[i as int]@);
        let ghost r0 = resumen@;
        let x = FilaResumen {
            n: f.c2_rut.clone(),
            nombre: f.c2_apellido_paterno.clone(),
            rut: f.c2_rut.clone(),
        };
        assert(resumen_v(x) == resumen_de(sv[i as int]));
        resumen.push(x);
        assert(resumen@.map_values(|f: FilaResumen| resumen_v(f)) =~= r0.map_values(
            |f: FilaResumen| resumen_v(f),
        ).push(resumen_v(x)));
        assert(sv.take(i + 1) == sv.take(i as int).push(sv[i as int]));
        assert(sv.take(i + 1).map_values(|s: FilaSalidaV| resumen_de(s)) =~= sv.take(
            i as int,
        ).map_values(|s: FilaSalidaV| resumen_de(s)).push(resumen_de(sv[i as int])));
        assert(resumen@.map_values(|f: FilaResumen| resumen_v(f)) =~= sv.take(i + 1).map_values(
            |s: FilaSalidaV| resumen_de(s),
        ));
        i = i + 1;
    }
    assert(sv.take(filas_salida@.len() as int) == sv);
    estado.filas = filas_salida;
    estado.prefijo_sp = prefijo;
    let mut todos_avisos = errores_lectura;
    let mut avisos = avisos;
    let ghost e0 = todos_avisos@;
    let ghost a0 = avisos@;
    todos_avisos.append(&mut avisos);
    assert(todos_avisos@.map_values(|a: String| a@) =~= e0.map_values(|a: String| a@)
        + a0.map_values(|a: String| a@));
    ResultadoCargaPlanilla { ok: true, nombre, filas: resumen, avisos: todos_avisos, error: None }
}

/// The message when there is no planilla to write.
pub open spec fn sin_datos_cargados() -> Seq<char> {
    "No hay datos cargados"@
}

/// Before the planilla is written to `ruta_destino`: an error when nothing
/// is loaded, else the file name that the answer reports (the last
/// component of the path, empty when it has none).
pub fn comprobar_generacion(estado: &EstadoPlanilla, ruta_destino: &str) -> (r: Result<
    String,
    String,
>)
    ensures
        r is Err <==> estado.filas@.len() == 0,
        r matches Err(e) ==> e@ == sin_datos_cargados(),
        ruta_portable(ruta_destino@) ==> (r matches Ok(n) ==> n@ == ultimo_componente(ruta_destino@)),
{
    if estado.filas.len() == 0 {
        return Err("No hay datos cargados".to_owned());
    }
    match nombre_de_ruta(ruta_destino) {
        Some(n) => Ok(n),
        None => Ok(String::new()),
    }
}

/// The message for a load with no files.
pub open spec fn sin_archivos() -> Seq<char> {
    "No se proporcionaron archivos"@
}

/// Loads the input files, given the reading of each (one per path, in the
/// same order): with no path at all, an error and the planilla unchanged;
/// otherwise as [`resultado_carga`], the name being that of the first file
/// and the prefix that of the file names.
pub fn cargar_excel(
    rutas: &Vec<String>,
    lecturas: Vec<Result<Vec<FilaEntrada>, String>>,
    estado: &mut EstadoPlanilla,
) -> (r: ResultadoCargaPlanilla)
    requires
        rutas@.len() == lecturas@.len(),
    ensures
        rutas@.len() == 0 ==> {
            &&& !r.ok
            &&& r.nombre@.len() == 0
            &&& r.filas@.len() == 0
            &&& r.avisos@.len() == 0
            &&& r.error.deep_view() == Some(sin_archivos())
            &&& *final(estado) == *old(estado)
        },
        rutas@.len() > 0 ==> exists|nombre: Seq<char>, nombres: Seq<Seq<char>>|
            nombres.len() == rutas@.len() && #[trigger] carga_correcta(
                nombre,
                prefijo_sp_spec(nombres),
                vistas(rutas@),
                lecturas_v(lecturas@),
                *old(estado),
                *final(estado),
                r,
            ),
        rutas@.len() > 0 && ruta_portable(rutas@[0]@) ==> r.nombre@ == ultimo_componente(
            rutas@[0]@,
        ),
        rutas@.len() > 0 && rutas_portables(vistas(rutas@)) ==> carga_correcta(
            ultimo_componente(rutas@[0]@),
            prefijo_sp_spec(tallos(vistas(rutas@))),
            vistas(rutas@),
            lecturas_v(lecturas@),
            *old(estado),
            *final(estado),
            r,
        ),
{
    if rutas.len() == 0 {
        return ResultadoCargaPlanilla {
            ok: false,
            nombre: String::new(),
            filas: Vec::new(),
            avisos: Vec::new(),
            error: Some("No se proporcionaron archivos".to_owned()),
        };
    }
    let nombre = match nombre_de_ruta(rutas[0].as_str()) {
        Some(n) => n,
        None => String::new(),
    };
    proof {
        if rutas_portables(vistas(rutas@)) {
            assert(vistas(rutas@)[0] == rutas@[0]@);
            assert(ruta_portable(vistas(rutas@)[0]));
        }
    }
    let prefijo = extraer_numero_sp(rutas);
    let ghost nombres = choose|nombres: Seq<Seq<char>>|
        nombres.len() == rutas@.len() && prefijo@ == #[trigger] prefijo_sp_spec(nombres);
    let r = resultado_carga(nombre, prefijo, rutas, lecturas, estado);
    assert(vistas(rutas@) == rutas@.map_values(|s: String| s@));
    assert(carga_correcta(
        nombre@,
        prefijo_sp_spec(nombres),
        vistas(rutas@),
        lecturas_v(lecturas@),
        *old(estado),
        *estado,
        r,
    ));
    r
}

// ─── Name and columns ────────────────────────────────────────────────────────

/// The file name of a planilla: by its SP prefix when there is one, by the
/// moment it is made otherwise.
pub open spec fn nombre_planilla_spec(prefijo: Seq<char>, t: Instante) -> Seq<char> {
    if prefijo.len() > 0 {
        "Repertorios Masivo SP "@ + prefijo + ".xlsx"@
    } else {
        "planilla_masivos_"@ + formato_fecha(t.anio as int, t.mes as nat, t.dia as nat) + "_"@
            + decimal_relleno(t.hora as nat, 2) + "-"@ + decimal_relleno(t.minuto as nat, 2)
            + ".xlsx"@
    }
}

/// The file name of a planilla made at moment `t`.
pub fn nombre_planilla_en(prefijo_sp: &str, t: &Instante) -> (r: String)
    ensures
        r@ == nombre_planilla_spec(prefijo_sp@, *t),
{
    let mut v: Vec<char> = Vec::new();
    if !prefijo_sp.is_empty() {
        anexar_str(&mut v, "Repertorios Masivo SP ");
        anexar_str(&mut v, prefijo_sp);
        anexar_str(&mut v, ".xlsx");
    } else {
        anexar_str(&mut v, "planilla_masivos_");
        let f = escribir_fecha(t.anio, t.mes, t.dia);
        anexar_str(&mut v, f.as_str());
        anexar_str(&mut v, "_");
        anexar_decimal_relleno(&mut v, t.hora as u64, 2);
        anexar_str(&mut v, "-");
        anexar_decimal_relleno(&mut v, t.minuto as u64, 2);
        anexar_str(&mut v, ".xlsx");
    }
    texto_de(&v)
}

/// The file name of a planilla made now.
pub fn nombre_planilla(prefijo_sp: &str) -> (r: String)
    ensures
        exists|t: Instante| instante_valido(t) && r@ == #[trigger] nombre_planilla_spec(prefijo_sp@, t),
{
    let t = ahora_local();
    nombre_planilla_en(prefijo_sp, &t)
}

/// An optional cell written as text: empty when absent.
pub open spec fn o_vacio(o: Option<Seq<char>>) -> Seq<char> {
    match o {
        Some(s) => s,
        None => Seq::empty(),
    }
}

/// The 21 columns of an output row, in the planilla's order.
pub open spec fn columnas_spec(f: FilaSalidaV) -> Seq<Seq<char>> {
    seq![
        f.c1_rut,
        f.c1_apellido_paterno,
        o_vacio(f.c1_apellido_materno),
        o_vacio(f.c1_nombres),
        f.c2_rut,
        f.c2_apellido_paterno,
        o_vacio(f.c2_apellido_materno),
        o_vacio(f.c2_nombres),
        o_vacio(f.tasacion_fiscal),
        o_vacio(f.precio_venta),
        o_vacio(f.patente),
        o_vacio(f.tipo_vehiculo),
        o_vacio(f.marca),
        o_vacio(f.modelo),
        o_vacio(f.anio),
        o_vacio(f.color),
        o_vacio(f.motor),
        o_vacio(f.chasis),
        o_vacio(f.serie),
        o_vacio(f.vin),
        o_vacio(f.codigo_operacion),
    ]
}

fn o_vacio_exec(o: &Option<String>) -> (r: String)
    ensures
        r@ == o_vacio(o.deep_view()),
{
    match o {
        Some(s) => s.clone(),
        None => String::new(),
    }
}

/// The texts of the 21 columns of an output row.
pub fn fila_a_columnas(f: &FilaSalida) -> (r: Vec<String>)
    ensures
        r@.map_values(|s: String| s@) == columnas_spec(f@),
{
    let mut r: Vec<String> = Vec::new();
    r.push(f.c1_rut.clone());
    r.push(f.c1_apellido_paterno.clone());
    r.push(o_vacio_exec(&f.c1_apellido_materno));
    r.push(o_vacio_exec(&f.c1_nombres));
    r.push(f.c2_rut.clone());
    r.push(f.c2_apellido_paterno.clone());
    r.push(o_vacio_exec(&f.c2_apellido_materno));
    r.push(o_vacio_exec(&f.c2_nombres));
    r.push(o_vacio_exec(&f.tasacion_fiscal));
    r.push(o_vacio_exec(&f.precio_venta));
    r.push(o_vacio_exec(&f.patente));
    r.push(o_vacio_exec(&f.tipo_vehiculo));
    r.push(o_vacio_exec(&f.marca));
    r.push(o_vacio_exec(&f.modelo));
    r.push(o_vacio_exec(&f.anio));
    r.push(o_vacio_exec(&f.color));
    r.push(o_vacio_exec(&f.motor));
    r.push(o_vacio_exec(&f.chasis));
    r.push(o_vacio_exec(&f.serie));
    r.push(o_vacio_exec(&f.vin));
    r.push(o_vacio_exec(&f.codigo_operacion));
    assert(r@.map_values(|s: String| s@) =~= columnas_spec(f@));
    r
}


// ─── Sheet layout ────────────────────────────────────────────────────────────

/// The texts of the merged group titles of row 0, as (first column, last
/// column, text); a group of one column is a single cell.
pub open spec fn grupos_spec() -> Seq<(u16, u16, Seq<char>)> {
    seq![
        (0u16, 3u16, "Compareciente 1 / Vendedor"@),
        (4u16, 7u16, "Compareciente 2 / Comprador"@),
        (8u16, 19u16, "Vehículo"@),
        (20u16, 20u16, "Datos OT"@),
    ]
}

/// The group titles of row 0 of the planilla.
pub fn grupos_planilla() -> (r: Vec<(u16, u16, String)>)
    ensures
        r@.map_values(|g: (u16, u16, String)| (g.0, g.1, g.2@)) == grupos_spec(),
{
    let mut r: Vec<(u16, u16, String)> = Vec::new();
    r.push((0, 3, "Compareciente 1 / Vendedor".to_owned()));
    r.push((4, 7, "Compareciente 2 / Comprador".to_owned()));
    r.push((8, 19, "Vehículo".to_owned()));
    r.push((20, 20, "Datos OT".to_owned()));
    assert(r@.map_values(|g: (u16, u16, String)| (g.0, g.1, g.2@)) =~= grupos_spec());
    r
}

/// The 21 column headers of row 1.
pub open spec fn encabezados() -> Seq<Seq<char>> {
    seq![
        "RUT"@,
        "Apellido Paterno"@,
        "Apellido Materno"@,
        "Nombres"@,
        "RUT"@,
        "Apellido Paterno"@,
        "Apellido Materno"@,
        "Nombres"@,
        "Tasación Fiscal"@,
        "Precio Venta"@,
        "Patente"@,
        "Tipo Vehículo"@,
        "Marca"@,
        "Modelo"@,
        "Año"@,
        "Color"@,
        "N° Motor"@,
        "N° Chasis"@,
        "N° Serie"@,
        "VIN"@,
        "Código Operación"@,
    ]
}

fn encabezados_exec() -> (r: Vec<String>)
    ensures
        r@.map_values(|s: String| s@) == encabezados(),
{
    let mut r: Vec<String> = Vec::new();
    r.push("RUT".to_owned());
    r.push("Apellido Paterno".to_owned());
    r.push("Apellido Materno".to_owned());
    r.push("Nombres".to_owned());
    r.push("RUT".to_owned());
    r.push("Apellido Paterno".to_owned());
    r.push("Apellido Materno".to_owned());
    r.push("Nombres".to_owned());
    r.push("Tasación Fiscal".to_owned());
    r.push("Precio Venta".to_owned());
    r.push("Patente".to_owned());
    r.push("Tipo Vehículo".to_owned());
    r.push("Marca".to_owned());
    r.push("Modelo".to_owned());
    r.push("Año".to_owned());
    r.push("Color".to_owned());
    r.push("N° Motor".to_owned());
    r.push("N° Chasis".to_owned());
    r.push("N° Serie".to_owned());
    r.push("VIN".to_owned());
    r.push("Código Operación".to_owned());
    assert(r@.map_values(|s: String| s@) =~= encabezados());
    r
}

/// The cells of row 1: the headers.
pub open spec fn celdas_encabezado() -> Seq<(u32, u16, Seq<char>)> {
    Seq::new(21, |j: int| (1u32, j as u16, encabezados()[j]))
}

/// The cells of the row that shows output row `i`: sheet row `i + 2`.
pub open spec fn celdas_fila(i: int, f: FilaSalidaV) -> Seq<(u32, u16, Seq<char>)> {
    Seq::new(21, |j: int| ((i + 2) as u32, j as u16, columnas_spec(f)[j]))
}

/// The cells of the output rows, row by row.
pub open spec fn celdas_datos(filas: Seq<FilaSalidaV>) -> Seq<(u32, u16, Seq<char>)>
    decreases filas.len(),
{
    if filas.len() == 0 {
        Seq::empty()
    } else {
        celdas_datos(filas.drop_last()) + celdas_fila(filas.len() - 1, filas.last())
    }
}

/// The text cells of a planilla, as (row, column, text): the headers in row
/// 1, then output row `i` in row `i + 2`.
pub open spec fn celdas_spec(filas: Seq<FilaSalidaV>) -> Seq<(u32, u16, Seq<char>)> {
    celdas_encabezado() + celdas_datos(filas)
}

/// Cells by their texts.
pub open spec fn vista_celdas(c: Seq<(u32, u16, String)>) -> Seq<(u32, u16, Seq<char>)> {
    c.map_values(|t: (u32, u16, String)| (t.0, t.1, t.2@))
}

/// The text cells of the planilla for these output rows (rows are numbered
/// with `u32`, as the sheet numbers them).
pub fn celdas_planilla(filas: &Vec<FilaSalida>) -> (r: Vec<(u32, u16, String)>)
    requires
        filas@.len() + 2 <= u32::MAX,
    ensures
        vista_celdas(r@) == celdas_spec(filas@.map_values(|f: FilaSalida| f@)),
{
    let ghost fv = filas@.map_values(|f: FilaSalida| f@);
    let enc = encabezados_exec();
    assert(enc@.len() == enc@.map_values(|s: String| s@).len());
    let mut r: Vec<(u32, u16, String)> = Vec::new();
    let mut j: usize = 0;
    while j < 21
        invariant
            j <= 21,
            enc@.len() == 21,
            enc@.map_values(|s: String| s@) == encabezados(),
            vista_celdas(r@) == celdas_encabezado().take(j as int),
        decreases 21 - j,
    {
        let ghost antes = vista_celdas(r@);
        r.push((1u32, j as u16, enc[j].clone()));
        assert(enc@.map_values(|s: String| s@)[j as int] == enc@[j as int]@);
        assert(vista_celdas(r@) =~= antes.push((1u32, j as u16, enc@[j as int]@)));
        assert(celdas_encabezado().take(j + 1) =~= celdas_encabezado().take(j as int).push(
            celdas_encabezado()[j as int],
        ));
        j = j + 1;
    }
    assert(celdas_encabezado().take(21) =~= celdas_encabezado());
    assert(fv.take(0) =~= Seq::<FilaSalidaV>::empty());
    assert(vista_celdas(r@) =~= celdas_encabezado() + celdas_datos(fv.take(0)));
    let mut i: usize = 0;
    while i < filas.len()
        invariant
            i <= filas@.len(),
            filas@.len() + 2 <= u32::MAX,
            fv == filas@.map_values(|f: FilaSalida| f@),
            vista_celdas(r@) == celdas_encabezado() + celdas_datos(fv.take(i as int)),
        decreases filas@.len() - i,
    {
        let cols = fila_a_columnas(&filas[i]);
        assert(fv[i as int] == filas@[i as int]@);
        assert(cols@.len() == cols@.map_values(|s: String| s@).len());
        let ghost base = vista_celdas(r@);
        let ghost cf = celdas_fila(i as int, fv[i as int]);
        let fila_hoja: u32 = (i + 2) as u32;
        let mut j: usize = 0;
        while j < 21
            invariant
                j <= 21,
                i < filas@.len(),
                fv.len() == filas@.len(),
                cols@.len() == 21,
                cols@.map_values(|s: String| s@) == columnas_spec(fv[i as int]),
                fila_hoja == i + 2,
                cf == celdas_fila(i as int, fv[i as int]),
                vista_celdas(r@) == base + cf.take(j as int),
            decreases 21 - j,
        {
            let ghost antes = vista_celdas(r@);
            r.push((fila_hoja, j as u16, cols[j].clone()));
            assert(cols@.map_values(|s: String| s@)[j as int] == cols@[j as int]@);
            assert(vista_celdas(r@) =~= antes.push((fila_hoja, j as u16, cols@[j as int]@)));
            assert(cf.take(j + 1) =~= cf.take(j as int).push(cf[j as int]));
            j = j + 1;
        }
        assert(cf.take(21) =~= cf);
        assert(fv.take(i + 1).drop_last() =~= fv.take(i as int));
        assert(fv.take(i + 1).last() == fv[i as int]);
        assert(celdas_datos(fv.take(i + 1)) == celdas_datos(fv.take(i as int)) + cf);
        assert(vista_celdas(r@) =~= celdas_encabezado() + celdas_datos(fv.take(i + 1)));
        i = i + 1;
    }
    assert(fv.take(filas@.len() as int) =~= fv);
    r
}


/// Every data cell sits under its header: columns 0–3 are compareciente 1
/// (the "Compareciente 1 / Vendedor" group), 4–7 compareciente 2, 8–19 the
/// vehicle and 20 the OT data, and each column holds the field its header
/// names (column 10, "Patente", the patente; column 20, "Código Operación",
/// the operation code).
pub proof fn ley_columnas_bajo_encabezados(f: FilaSalidaV)
    ensures
        columnas_spec(f).len() == 21 && encabezados().len() == 21,
        grupos_spec()[0] == (0u16, 3u16, "Compareciente 1 / Vendedor"@),
        grupos_spec()[1] == (4u16, 7u16, "Compareciente 2 / Comprador"@),
        grupos_spec()[2] == (8u16, 19u16, "Vehículo"@),
        grupos_spec()[3] == (20u16, 20u16, "Datos OT"@),
        encabezados()[0] == "RUT"@ && columnas_spec(f)[0] == f.c1_rut,
        encabezados()[1] == "Apellido Paterno"@ && columnas_spec(f)[1] == f.c1_apellido_paterno,
        encabezados()[2] == "Apellido Materno"@ && columnas_spec(f)[2] == o_vacio(
            f.c1_apellido_materno,
        ),
        encabezados()[3] == "Nombres"@ && columnas_spec(f)[3] == o_vacio(f.c1_nombres),
        encabezados()[4] == "RUT"@ && columnas_spec(f)[4] == f.c2_rut,
        encabezados()[5] == "Apellido Paterno"@ && columnas_spec(f)[5] == f.c2_apellido_paterno,
        encabezados()[6] == "Apellido Materno"@ && columnas_spec(f)[6] == o_vacio(
            f.c2_apellido_materno,
        ),
        encabezados()[7] == "Nombres"@ && columnas_spec(f)[7] == o_vacio(f.c2_nombres),
        encabezados()[8] == "Tasación Fiscal"@ && columnas_spec(f)[8] == o_vacio(f.tasacion_fiscal),
        encabezados()[9] == "Precio Venta"@ && columnas_spec(f)[9] == o_vacio(f.precio_venta),
        encabezados()[10] == "Patente"@ && columnas_spec(f)[10] == o_vacio(f.patente),
        encabezados()[11] == "Tipo Vehículo"@ && columnas_spec(f)[11] == o_vacio(f.tipo_vehiculo),
        encabezados()[12] == "Marca"@ && columnas_spec(f)[12] == o_vacio(f.marca),
        encabezados()[13] == "Modelo"@ && columnas_spec(f)[13] == o_vacio(f.modelo),
        encabezados()[14] == "Año"@ && columnas_spec(f)[14] == o_vacio(f.anio),
        encabezados()[15] == "Color"@ && columnas_spec(f)[15] == o_vacio(f.color),
        encabezados()[16] == "N° Motor"@ && columnas_spec(f)[16] == o_vacio(f.motor),
        encabezados()[17] == "N° Chasis"@ && columnas_spec(f)[17] == o_vacio(f.chasis),
        encabezados()[18] == "N° Serie"@ && columnas_spec(f)[18] == o_vacio(f.serie),
        encabezados()[19] == "VIN"@ && columnas_spec(f)[19] == o_vacio(f.vin),
        encabezados()[20] == "Código Operación"@ && columnas_spec(f)[20] == o_vacio(
            f.codigo_operacion,
        ),
{
}

} // verus!
