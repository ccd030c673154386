//! The signing workflow: finding a deed's data, the log of submissions and
//! the decisions of the automatic mode.

use vstd::prelude::*;

use crate::casos::{buscar_caso_flexible, flexible_caso, BaseCasos};
use crate::modelos::{Caso, CasoV, Registro, RegistroV};
use crate::ocr::{normalizar_numero, numero_normalizado, DatosOcr};
use crate::repertorios::{buscar_repertorio_flexible, flexible_repertorio, BaseRepertorios};
use crate::texto::{
    analizar_natural, analizar_u32, anexar_str, caracteres, es_literal, texto_de, tramo,
};
use crate::transformador::{indice_de, lema_indice_de};
use crate::licencia::{base64_codificado, base64_estandar};
use crate::vigilador::RUTA_SCANNER;

verus! {

// ─── Records ─────────────────────────────────────────────────────────────────

/// One line of the signing log.
#[derive(Debug, PartialEq, Eq)]
pub struct EntradaLog {
    pub nombre: String,
    pub repertorio: String,
    pub tipo: String,
    /// "ok", "error", "sin_datos" or "procesando".
    pub estado: String,
    pub mensaje: String,
}

impl Clone for EntradaLog {
    fn clone(&self) -> (r: Self)
        ensures
            r == *self,
    {
        EntradaLog {
            nombre: self.nombre.clone(),
            repertorio: self.repertorio.clone(),
            tipo: self.tipo.clone(),
            estado: self.estado.clone(),
            mensaje: self.mensaje.clone(),
        }
    }
}

/// The plain content of an [`EntradaLog`].
pub struct EntradaLogV {
    pub nombre: Seq<char>,
    pub repertorio: Seq<char>,
    pub tipo: Seq<char>,
    pub estado: Seq<char>,
    pub mensaje: Seq<char>,
}

impl View for EntradaLog {
    type V = EntradaLogV;

    open spec fn view(&self) -> EntradaLogV {
        EntradaLogV {
            nombre: self.nombre@,
            repertorio: self.repertorio@,
            tipo: self.tipo@,
            estado: self.estado@,
            mensaje: self.mensaje@,
        }
    }
}

/// What is sent to the signing service for one PDF.
#[derive(Debug, PartialEq, Eq)]
pub struct DatosEnvio {
    pub nombre: String,
    pub numero: String,
    pub anho: String,
    pub tipo_contrato: String,
    pub fecha_dia: u32,
    pub fecha_mes: u32,
    pub fecha_anio: u32,
}

/// A PDF of the scanner folder.
#[derive(Debug, PartialEq, Eq)]
pub struct InfoPdf {
    pub nombre: String,
    pub ruta: String,
    pub ya_enviado: bool,
}

/// A rendered page for the viewer.
#[derive(Debug, PartialEq, Eq)]
pub struct PaginaResult {
    pub ok: bool,
    pub data: Option<String>,
    pub pagina: u32,
    pub total: u32,
    pub error: Option<String>,
}

/// The state of the automatic mode.
#[derive(Debug, PartialEq, Eq)]
pub struct EstadoAutoResult {
    pub activo: bool,
    pub subidos: usize,
    pub errores: usize,
}

/// The state of the signing screen: the scanner folder, the log of
/// submissions, and whether the automatic mode runs.
pub struct EstadoFirma {
    pub carpeta: String,
    pub log: Vec<EntradaLog>,
    pub auto_activo: bool,
}

impl Default for EstadoFirma {
    fn default() -> (r: Self)
        ensures
            r.carpeta@ == RUTA_SCANNER@,
            r.log@.len() == 0,
            !r.auto_activo,
    {
        EstadoFirma { carpeta: RUTA_SCANNER.to_owned(), log: Vec::new(), auto_activo: false }
    }
}

/// What switching the automatic mode asks of the caller.
pub enum AccionVigilancia {
    /// Stop the folder watcher.
    Detener,
    /// Start watching this folder.
    Iniciar { carpeta: String },
}

impl EstadoFirma {
    /// The scanner folder.
    pub fn get_carpeta_scanner(&self) -> (r: String)
        ensures
            r@ == self.carpeta@,
    {
        self.carpeta.clone()
    }

    /// Sets the scanner folder.
    pub fn set_carpeta_scanner(&mut self, ruta: String)
        ensures
            final(self).carpeta == ruta,
            final(self).log == old(self).log,
            final(self).auto_activo == old(self).auto_activo,
    {
        self.carpeta = ruta;
    }

    /// Adds an entry at the end of the log.
    pub fn registrar(&mut self, entrada: EntradaLog)
        ensures
            final(self).log@ == old(self).log@.push(entrada),
            final(self).carpeta == old(self).carpeta,
            final(self).auto_activo == old(self).auto_activo,
    {
        self.log.push(entrada);
    }

    /// Switches the automatic mode: a running watcher is stopped, otherwise
    /// one is started on the scanner folder.
    pub fn toggle_auto(&mut self) -> (r: AccionVigilancia)
        ensures
            final(self).auto_activo == !old(self).auto_activo,
            old(self).auto_activo ==> r is Detener,
            !old(self).auto_activo ==> (r matches AccionVigilancia::Iniciar { carpeta } && carpeta@
                == old(self).carpeta@),
            final(self).carpeta == old(self).carpeta,
            final(self).log == old(self).log,
    {
        if self.auto_activo {
            self.auto_activo = false;
            AccionVigilancia::Detener
        } else {
            self.auto_activo = true;
            AccionVigilancia::Iniciar { carpeta: self.carpeta.clone() }
        }
    }

    /// The state of the automatic mode (see `estado_auto_result`).
    pub fn estado_auto(&self) -> (r: EstadoAutoResult)
        ensures
            r.activo == self.auto_activo,
            r.subidos == cuenta_estado(self.log@, "ok"@),
            r.errores == cuenta_estado(self.log@, "error"@) + cuenta_estado(
                self.log@,
                "sin_datos"@,
            ),
    {
        estado_auto_result(self.auto_activo, &self.log)
    }
}

// ─── Finding a deed's data ───────────────────────────────────────────────────

/// The date parts of "YYYY-MM-DD" (split at the first two dashes).
pub open spec fn partes_fecha(s: Seq<char>) -> Option<(Seq<char>, Seq<char>, Seq<char>)> {
    let i = indice_de(s, '-');
    if i >= s.len() {
        None
    } else {
        let resto = s.skip(i as int + 1);
        let j = indice_de(resto, '-');
        if j >= resto.len() {
            None
        } else {
            Some((s.take(i as int), resto.take(j as int), resto.skip(j as int + 1)))
        }
    }
}

/// The case a repertorio gives: its number, the year as written, its
/// matter as the kind of contract and its date; none when the date is not
/// three positive numbers.
pub open spec fn caso_de_registro(reg: RegistroV) -> Option<CasoV> {
    match partes_fecha(reg.fecha) {
        None => None,
        Some((a, m, d)) => match (
            analizar_natural(a, 4294967295),
            analizar_natural(m, 4294967295),
            analizar_natural(d, 4294967295),
        ) {
            (Some(av), Some(mv), Some(dv)) => if av == 0 || mv == 0 || dv == 0 {
                None
            } else {
                Some(
                    CasoV {
                        numero: reg.repertorio,
                        anho: a,
                        tipo_contrato: reg.materia,
                        fecha_dia: dv as u32,
                        fecha_mes: mv as u32,
                        fecha_anio: av as u32,
                    },
                )
            },
            _ => None,
        },
    }
}

/// The number that is looked up for an OCR reading: the reading normalised,
/// or as it is when no digit is left.
pub open spec fn clave_busqueda(numero: Seq<char>) -> Seq<char> {
    if numero_normalizado(numero).len() == 0 {
        numero
    } else {
        numero_normalizado(numero)
    }
}

/// What looking a deed up may give: a case found flexibly among the cases;
/// failing that, the case made from a repertorio found flexibly.
pub open spec fn datos_buscados(
    casos: Map<Seq<char>, Caso>,
    repertorios: Map<Seq<char>, Registro>,
    numero: Seq<char>,
    r: Option<Caso>,
) -> bool {
    let clave = clave_busqueda(numero);
    exists|rc: Option<Caso>, rr: Option<Registro>|
        #![trigger flexible_caso(casos, clave, rc), flexible_repertorio(repertorios, clave, rr)]
        {
            &&& flexible_caso(casos, clave, rc)
            &&& flexible_repertorio(repertorios, clave, rr)
            &&& match rc {
                Some(c) => r == Some(c),
                None => match rr {
                    None => r is None,
                    Some(reg) => match caso_de_registro(reg@) {
                        Some(cv) => r is Some && r.unwrap()@ == cv,
                        None => r is None,
                    },
                },
            }
        }
}

fn posicion_guion(v: &Vec<char>, desde: usize) -> (k: usize)
    requires
        desde <= v.len(),
    ensures
        desde <= k <= v.len(),
        k - desde == indice_de(v@.skip(desde as int), '-'),
{
    let ghost s = v@.skip(desde as int);
    let mut k = desde;
    while k < v.len() && v[k] != '-'
        invariant
            desde <= k <= v.len(),
            s == v@.skip(desde as int),
            forall|j: int| 0 <= j < k - desde ==> s[j] != '-',
        decreases v.len() - k,
    {
        k = k + 1;
    }
    proof {
        lema_indice_de(s, '-', k - desde);
    }
    k
}

/// The case a repertorio gives, if its date reads.
pub fn caso_desde_registro(reg: &Registro) -> (r: Option<Caso>)
    ensures
        match caso_de_registro(reg@) {
            Some(cv) => r is Some && r.unwrap()@ == cv,
            None => r is None,
        },
{
    let v = caracteres(reg.fecha.as_str());
    assert(v@.skip(0) == v@);
    let i = posicion_guion(&v, 0);
    if i >= v.len() {
        return None;
    }
    let ghost resto = v@.skip(i + 1);
    let j = posicion_guion(&v, i + 1);
    if j >= v.len() {
        return None;
    }
    let a = texto_de(&tramo(&v, 0, i));
    let m = texto_de(&tramo(&v, i + 1, j));
    let d = texto_de(&tramo(&v, j + 1, v.len()));
    assert(a@ == v@.take(i as int));
    assert(m@ == resto.take(j - i - 1));
    assert(d@ == resto.skip(j - i));
    let anio = match analizar_u32(a.as_str()) {
        Some(x) => x,
        None => {
            return None;
        },
    };
    let mes = match analizar_u32(m.as_str()) {
        Some(x) => x,
        None => {
            return None;
        },
    };
    let dia = match analizar_u32(d.as_str()) {
        Some(x) => x,
        None => {
            return None;
        },
    };
    if anio == 0 || mes == 0 || dia == 0 {
        return None;
    }
    Some(
        Caso {
            numero: reg.repertorio.clone(),
            anho: a,
            tipo_contrato: reg.materia.clone(),
            fecha_dia: dia,
            fecha_mes: mes,
            fecha_anio: anio,
        },
    )
}

/// The data of a deed from its repertorio number as OCR read it: the
/// number is normalised, then looked up among the cases and, failing that,
/// among the historical repertorios (whose date must read as Y-M-D).
pub fn _buscar_datos(numero: &str, casos: &BaseCasos, repertorios: &BaseRepertorios) -> (r: Option<
    Caso,
>)
    ensures
        datos_buscados(casos@, repertorios@, numero@, r),
{
    let num_norm = normalizar_numero(numero);
    let buscar: String = if num_norm.as_str().is_empty() {
        numero.to_owned()
    } else {
        num_norm
    };
    let ghost clave = clave_busqueda(numero@);
    assert(buscar@ == clave);
    let rc = buscar_caso_flexible(casos, buscar.as_str());
    match rc {
        Some(c) => {
            let rr = buscar_repertorio_flexible(repertorios, buscar.as_str());
            assert(flexible_caso(casos@, clave, rc) && flexible_repertorio(repertorios@, clave, rr));
            Some(c)
        },
        None => {
            let rr = buscar_repertorio_flexible(repertorios, buscar.as_str());
            assert(flexible_caso(casos@, clave, rc) && flexible_repertorio(repertorios@, clave, rr));
            match rr {
                None => None,
                Some(reg) => caso_desde_registro(&reg),
            }
        },
    }
}

// ─── Log entries ─────────────────────────────────────────────────────────────

/// "numero-anho", as the log shows a repertorio.
pub open spec fn rep_anho(numero: Seq<char>, anho: Seq<char>) -> Seq<char> {
    numero + "-"@ + anho
}

fn rep_anho_exec(numero: &str, anho: &str) -> (r: String)
    ensures
        r@ == rep_anho(numero@, anho@),
{
    let mut v = caracteres(numero);
    anexar_str(&mut v, "-");
    anexar_str(&mut v, anho);
    texto_de(&v)
}

/// The log entry for a submission, from what the signing service answered.
pub fn entrada_tras_envio(datos: &DatosEnvio, resultado: Result<(), String>) -> (r: EntradaLog)
    ensures
        r.nombre@ == datos.nombre@,
        r.repertorio@ == rep_anho(datos.numero@, datos.anho@),
        r.tipo@ == datos.tipo_contrato@,
        resultado is Ok ==> r.estado@ == "ok"@ && r.mensaje@ == "Enviado correctamente"@,
        resultado matches Err(e) ==> r.estado@ == "error"@ && r.mensaje@ == e@,
{
    let repertorio = rep_anho_exec(datos.numero.as_str(), datos.anho.as_str());
    match resultado {
        Ok(()) => EntradaLog {
            nombre: datos.nombre.clone(),
            repertorio,
            tipo: datos.tipo_contrato.clone(),
            estado: "ok".to_owned(),
            mensaje: "Enviado correctamente".to_owned(),
        },
        Err(e) => EntradaLog {
            nombre: datos.nombre.clone(),
            repertorio,
            tipo: datos.tipo_contrato.clone(),
            estado: "error".to_owned(),
            mensaje: e,
        },
    }
}

// ─── Automatic mode ──────────────────────────────────────────────────────────

/// How OCR of a new PDF ended.
#[derive(Debug, PartialEq, Eq)]
pub enum ResultadoOcr {
    /// The page was read.
    Datos(DatosOcr),
    /// OCR itself failed, with this message.
    FalloOcr(String),
    /// The OCR task could not run, with this message.
    FalloInterno(String),
}

/// What the automatic mode does next with a new PDF.
#[derive(Debug, PartialEq, Eq)]
pub enum AccionAuto {
    /// Record this entry in the log; nothing is sent.
    Registrar(EntradaLog),
    /// Send the PDF with these data.
    Enviar(DatosEnvio),
}

/// An error line of the log for a PDF whose repertorio is not known.
pub open spec fn es_error_sin_repertorio(e: EntradaLogV, nombre: Seq<char>, mensaje: Seq<char>) -> bool {
    &&& e.nombre == nombre
    &&& e.repertorio == "—"@
    &&& e.tipo == "—"@
    &&& e.estado == "error"@
    &&& e.mensaje == mensaje
}

/// The decision after OCR: log an OCR failure; log a page without a
/// repertorio number; log a repertorio that is not in the databases as
/// "sin_datos"; otherwise send the PDF with the data found.
pub open spec fn accion_correcta(
    nombre: Seq<char>,
    ocr: ResultadoOcr,
    casos: Map<Seq<char>, Caso>,
    repertorios: Map<Seq<char>, Registro>,
    r: AccionAuto,
) -> bool {
    match ocr {
        ResultadoOcr::FalloOcr(e) => r matches AccionAuto::Registrar(l) && es_error_sin_repertorio(
            l@,
            nombre,
            "OCR falló: "@ + e@,
        ),
        ResultadoOcr::FalloInterno(e) => r matches AccionAuto::Registrar(l)
            && es_error_sin_repertorio(l@, nombre, "Error interno OCR: "@ + e@),
        ResultadoOcr::Datos(d) => match d.numero {
            None => r matches AccionAuto::Registrar(l) && es_error_sin_repertorio(
                l@,
                nombre,
                "OCR: repertorio no detectado"@,
            ),
            Some(n) => {
                let anho = match d.anho {
                    Some(a) => a@,
                    None => Seq::empty(),
                };
                let tipo = match d.tipo_contrato {
                    Some(t) => t@,
                    None => Seq::empty(),
                };
                exists|c: Option<Caso>|
                    #[trigger] datos_buscados(casos, repertorios, n@, c) && match c {
                        None => r matches AccionAuto::Registrar(l) && {
                            &&& l.nombre@ == nombre
                            &&& l.repertorio@ == rep_anho(n@, anho)
                            &&& l.tipo@ == tipo
                            &&& l.estado@ == "sin_datos"@
                            &&& l.mensaje@ == "Repertorio "@ + rep_anho(n@, anho)
                                + " no está en la base de datos — procesar manualmente"@
                        },
                        Some(caso) => r matches AccionAuto::Enviar(e) && {
                            &&& e.nombre@ == nombre
                            &&& e.numero@ == caso.numero@
                            &&& e.anho@ == caso.anho@
                            &&& e.tipo_contrato@ == caso.tipo_contrato@
                            &&& e.fecha_dia == caso.fecha_dia
                            &&& e.fecha_mes == caso.fecha_mes
                            &&& e.fecha_anio == caso.fecha_anio
                        },
                    }
            },
        },
    }
}

fn error_sin_repertorio(nombre: &String, prefijo: &str, detalle: &str) -> (r: EntradaLog)
    ensures
        es_error_sin_repertorio(r@, nombre@, prefijo@ + detalle@),
{
    let mut m = caracteres(prefijo);
    anexar_str(&mut m, detalle);
    EntradaLog {
        nombre: nombre.clone(),
        repertorio: "—".to_owned(),
        tipo: "—".to_owned(),
        estado: "error".to_owned(),
        mensaje: texto_de(&m),
    }
}

/// Decides what the automatic mode does with a new PDF once OCR has ended.
pub fn paso_tras_ocr(
    nombre: &String,
    ocr: ResultadoOcr,
    casos: &BaseCasos,
    repertorios: &BaseRepertorios,
) -> (r: AccionAuto)
    ensures
        accion_correcta(nombre@, ocr, casos@, repertorios@, r),
{
    match ocr {
        ResultadoOcr::FalloOcr(e) => AccionAuto::Registrar(
            error_sin_repertorio(nombre, "OCR falló: ", e.as_str()),
        ),
        ResultadoOcr::FalloInterno(e) => AccionAuto::Registrar(
            error_sin_repertorio(nombre, "Error interno OCR: ", e.as_str()),
        ),
        ResultadoOcr::Datos(d) => {
            let n = match &d.numero {
                Some(n) => n.clone(),
                None => {
                    proof {
                        reveal_strlit("");
                        assert("OCR: repertorio no detectado"@ + ""@ =~= "OCR: repertorio no detectado"@);
                    }
                    return AccionAuto::Registrar(
                        error_sin_repertorio(nombre, "OCR: repertorio no detectado", ""),
                    );
                },
            };
            let anho = match &d.anho {
                Some(a) => a.clone(),
                None => String::new(),
            };
            let caso = _buscar_datos(n.as_str(), casos, repertorios);
            match caso {
                None => {
                    let tipo = match &d.tipo_contrato {
                        Some(t) => t.clone(),
                        None => String::new(),
                    };
                    let repertorio = rep_anho_exec(n.as_str(), anho.as_str());
                    let mut m = caracteres("Repertorio ");
                    anexar_str(&mut m, repertorio.as_str());
                    anexar_str(&mut m, " no está en la base de datos — procesar manualmente");
                    let l = EntradaLog {
                        nombre: nombre.clone(),
                        repertorio,
                        tipo,
                        estado: "sin_datos".to_owned(),
                        mensaje: texto_de(&m),
                    };
                    assert(datos_buscados(casos@, repertorios@, n@, caso));
                    AccionAuto::Registrar(l)
                },
                Some(c) => {
                    let e = DatosEnvio {
                        nombre: nombre.clone(),
                        numero: c.numero.clone(),
                        anho: c.anho.clone(),
                        tipo_contrato: c.tipo_contrato.clone(),
                        fecha_dia: c.fecha_dia,
                        fecha_mes: c.fecha_mes,
                        fecha_anio: c.fecha_anio,
                    };
                    assert(datos_buscados(casos@, repertorios@, n@, Some(c)));
                    AccionAuto::Enviar(e)
                },
            }
        },
    }
}

// ─── Log views ───────────────────────────────────────────────────────────────

/// How many entries of the log have the given state.
pub open spec fn cuenta_estado(log: Seq<EntradaLog>, estado: Seq<char>) -> nat
    decreases log.len(),
{
    if log.len() == 0 {
        0
    } else {
        cuenta_estado(log.drop_last(), estado) + if log.last().estado@ == estado {
            1nat
        } else {
            0nat
        }
    }
}

/// The state of the automatic mode: whether it runs, how many PDFs were
/// sent and how many failed or had no data.
pub fn estado_auto_result(activo: bool, log: &Vec<EntradaLog>) -> (r: EstadoAutoResult)
    ensures
        r.activo == activo,
        r.subidos == cuenta_estado(log@, "ok"@),
        r.errores == cuenta_estado(log@, "error"@) + cuenta_estado(log@, "sin_datos"@),
{
    let mut subidos: usize = 0;
    let mut errores: usize = 0;
    let mut i: usize = 0;
    while i < log.len()
        invariant
            i <= log@.len(),
            subidos == cuenta_estado(log@.take(i as int), "ok"@),
            errores == cuenta_estado(log@.take(i as int), "error"@) + cuenta_estado(
                log@.take(i as int),
                "sin_datos"@,
            ),
            subidos + errores <= i,
        decreases log@.len() - i,
    {
        let e = caracteres(log[i].estado.as_str());
        let ghost pre = log@.take(i + 1);
        assert(pre.drop_last() == log@.take(i as int));
        assert(pre.last() == log@[i as int]);
        let es_ok = es_literal(&e, "ok");
        let es_err = es_literal(&e, "error");
        let es_sd = es_literal(&e, "sin_datos");
        proof {
            reveal_strlit("ok");
            reveal_strlit("error");
            reveal_strlit("sin_datos");
            assert("ok"@.len() != "error"@.len());
            assert("ok"@.len() != "sin_datos"@.len());
            assert("error"@.len() != "sin_datos"@.len());
        }
        if es_ok {
            subidos = subidos + 1;
        }
        if es_err || es_sd {
            errores = errores + 1;
        }
        i = i + 1;
    }
    assert(log@.take(log@.len() as int) == log@);
    EstadoAutoResult { activo, subidos, errores }
}

/// The log, newest entry first.
pub fn get_log_firma(log: &Vec<EntradaLog>) -> (r: Vec<EntradaLog>)
    ensures
        r@ == log@.reverse(),
{
    let mut r: Vec<EntradaLog> = Vec::new();
    let mut i: usize = log.len();
    while i > 0
        invariant
            i <= log@.len(),
            r@ == log@.subrange(i as int, log@.len() as int).reverse(),
        decreases i,
    {
        i = i - 1;
        r.push(log[i].clone());
        assert(log@.subrange(i as int, log@.len() as int).reverse() =~= log@.subrange(
            i + 1,
            log@.len() as int,
        ).reverse().push(log@[i as int]));
    }
    assert(log@.subrange(0, log@.len() as int) == log@);
    r
}

/// The page shown in the viewer, from what rendering gave: the image and
/// the page count, or the error.
pub fn resultado_pagina(pagina: u32, resultado: Result<(String, u16), String>) -> (r: PaginaResult)
    ensures
        r.pagina == pagina,
        match resultado {
            Ok((b64, total)) => r.ok && r.data == Some(b64) && r.total == total as u32
                && r.error is None,
            Err(e) => !r.ok && r.data is None && r.total == 0 && r.error == Some(e),
        },
{
    match resultado {
        Ok((b64, total)) => PaginaResult {
            ok: true,
            data: Some(b64),
            pagina,
            total: total as u32,
            error: None,
        },
        Err(e) => PaginaResult { ok: false, data: None, pagina, total: 0, error: Some(e) },
    }
}

/// `base64::engine::general_purpose::STANDARD.encode`: standard base64 with
/// padding, which the same engine decodes back to the bytes.
#[verifier::external_body]
fn codificar_base64(bytes: &Vec<u8>) -> (r: String)
    ensures
        r@ == base64_codificado(bytes@),
        base64_estandar(r@) == Some(bytes@),
{
    base64::Engine::encode(&base64::engine::general_purpose::STANDARD, bytes)
}

/// The page shown in the viewer, from what rendering gave: the PNG image,
/// sent as base64, and the page count; or the error.
pub fn pagina_desde_png(pagina: u32, render: Result<(Vec<u8>, u16), String>) -> (r: PaginaResult)
    ensures
        r.pagina == pagina,
        match render {
            Ok((png, total)) => r.ok && r.total == total as u32 && r.error is None && (
            r.data matches Some(d) && d@ == base64_codificado(png@) && base64_estandar(d@) == Some(
                png@,
            )),
            Err(e) => !r.ok && r.data is None && r.total == 0 && r.error == Some(e),
        },
{
    match render {
        Ok((png, total)) => {
            let b64 = codificar_base64(&png);
            resultado_pagina(pagina, Ok((b64, total)))
        },
        Err(e) => resultado_pagina(pagina, Err(e)),
    }
}

// ─── PDFs of the scanner folder ──────────────────────────────────────────────

/// Position of the last dot of `s`, if any.
pub open spec fn ultimo_punto(s: Seq<char>) -> Option<nat>
    decreases s.len(),
{
    if s.len() == 0 {
        None
    } else if s.last() == '.' {
        Some((s.len() - 1) as nat)
    } else {
        ultimo_punto(s.drop_last())
    }
}

/// `Path::extension` of a file name: what follows the last dot, when the
/// dot is not the name's first character.
pub open spec fn extension(nombre: Seq<char>) -> Option<Seq<char>> {
    match ultimo_punto(nombre) {
        Some(k) => if k == 0 {
            None
        } else {
            Some(nombre.skip(k as int + 1))
        },
        None => None,
    }
}

/// The extension is "pdf" in any ASCII case.
pub open spec fn es_pdf(nombre: Seq<char>) -> bool {
    match extension(nombre) {
        Some(e) => e.len() == 3 && (e[0] == 'p' || e[0] == 'P') && (e[1] == 'd' || e[1] == 'D')
            && (e[2] == 'f' || e[2] == 'F'),
        None => false,
    }
}

fn ultimo_punto_exec(v: &Vec<char>) -> (r: Option<usize>)
    ensures
        match r {
            Some(k) => ultimo_punto(v@) == Some(k as nat) && k < v@.len(),
            None => ultimo_punto(v@) is None,
        },
{
    let mut i: usize = v.len();
    assert(v@.take(v@.len() as int) == v@);
    while i > 0
        invariant
            i <= v@.len(),
            ultimo_punto(v@) == ultimo_punto(v@.take(i as int)),
        decreases i,
    {
        let ghost t = v@.take(i as int);
        assert(t.last() == v@[i - 1]);
        assert(t.drop_last() == v@.take(i - 1));
        if v[i - 1] == '.' {
            return Some(i - 1);
        }
        i = i - 1;
    }
    None
}

/// Whether a file name has the extension "pdf" in any ASCII case.
pub fn es_nombre_pdf(nombre: &str) -> (r: bool)
    ensures
        r == es_pdf(nombre@),
{
    let v = caracteres(nombre);
    match ultimo_punto_exec(&v) {
        Some(k) => {
            if k == 0 {
                return false;
            }
            assert(k < v.len());
            let e = tramo(&v, k + 1, v.len());
            assert(e@ == v@.skip(k + 1));
            e.len() == 3 && (e[0] == 'p' || e[0] == 'P') && (e[1] == 'd' || e[1] == 'D') && (e[2]
                == 'f' || e[2] == 'F')
        },
        None => false,
    }
}

/// A PDF was sent: some log entry with that name is "ok".
pub open spec fn enviado(log: Seq<EntradaLog>, nombre: Seq<char>) -> bool {
    exists|i: int| 0 <= i < log.len() && #[trigger] log[i].nombre@ == nombre && log[i].estado@ == "ok"@
}

fn fue_enviado(log: &Vec<EntradaLog>, nombre: &String) -> (r: bool)
    ensures
        r == enviado(log@, nombre@),
{
    let mut i: usize = 0;
    while i < log.len()
        invariant
            i <= log@.len(),
            forall|j: int|
                0 <= j < i ==> !(#[trigger] log@[j].nombre@ == nombre@ && log@[j].estado@ == "ok"@),
        decreases log@.len() - i,
    {
        if log[i].nombre == *nombre && es_literal(&caracteres(log[i].estado.as_str()), "ok") {
            return true;
        }
        i = i + 1;
    }
    false
}

/// Lexicographic order of texts by character code (the order of `str`).
pub open spec fn menor_igual(a: Seq<char>, b: Seq<char>) -> bool
    decreases a.len(),
{
    if a.len() == 0 {
        true
    } else if b.len() == 0 {
        false
    } else if a[0] != b[0] {
        a[0] < b[0]
    } else {
        menor_igual(a.drop_first(), b.drop_first())
    }
}

fn menor_igual_exec(a: &Vec<char>, b: &Vec<char>) -> (r: bool)
    ensures
        r == menor_igual(a@, b@),
{
    let mut i: usize = 0;
    assert(a@.skip(0) == a@);
    assert(b@.skip(0) == b@);
    while i < a.len() && i < b.len() && a[i] == b[i]
        invariant
            i <= a@.len(),
            i <= b@.len(),
            menor_igual(a@, b@) == menor_igual(a@.skip(i as int), b@.skip(i as int)),
        decreases a@.len() - i,
    {
        assert(a@.skip(i as int).drop_first() == a@.skip(i + 1));
        assert(b@.skip(i as int).drop_first() == b@.skip(i + 1));
        i = i + 1;
    }
    if i == a.len() {
        true
    } else if i == b.len() {
        false
    } else {
        a[i] < b[i]
    }
}

/// `menor_igual` is a total order: any two texts compare, and it is
/// transitive.
pub proof fn ley_orden_total(a: Seq<char>, b: Seq<char>, c: Seq<char>)
    ensures
        menor_igual(a, b) || menor_igual(b, a),
        menor_igual(a, b) && menor_igual(b, c) ==> menor_igual(a, c),
    decreases a.len(),
{
    if a.len() > 0 && b.len() > 0 {
        if c.len() > 0 {
            ley_orden_total(a.drop_first(), b.drop_first(), c.drop_first());
        } else {
            ley_orden_total(a.drop_first(), b.drop_first(), c);
        }
    }
}

/// The PDFs of a folder listing, whether each was already sent, ordered by
/// name.
pub fn listar_pdfs(carpeta: &String, nombres: &Vec<String>, log: &Vec<EntradaLog>) -> (r: Vec<InfoPdf>)
    ensures
        forall|i: int|
            0 <= i < r@.len() ==> {
                &&& es_pdf((#[trigger] r@[i]).nombre@)
                &&& r@[i].ruta@ == carpeta@
                &&& r@[i].ya_enviado == enviado(log@, r@[i].nombre@)
            },
        r@.map_values(|p: InfoPdf| p.nombre@).to_multiset() == nombres@.map_values(
            |n: String| n@,
        ).filter(|n: Seq<char>| es_pdf(n)).to_multiset(),
        forall|i: int, j: int|
            0 <= i < j < r@.len() ==> menor_igual(#[trigger] r@[i].nombre@, #[trigger] r@[j].nombre@),
{
    let ghost nv = nombres@.map_values(|n: String| n@);
    let mut r: Vec<InfoPdf> = Vec::new();
    let mut i: usize = 0;
    assert(nv.take(0).filter(|n: Seq<char>| es_pdf(n)) =~= Seq::<Seq<char>>::empty()) by {
        reveal(Seq::filter);
    }
    assert(r@.map_values(|p: InfoPdf| p.nombre@) =~= Seq::<Seq<char>>::empty());
    while i < nombres.len()
        invariant
            i <= nombres@.len(),
            nv == nombres@.map_values(|n: String| n@),
            forall|k: int|
                0 <= k < r@.len() ==> {
                    &&& es_pdf((#[trigger] r@[k]).nombre@)
                    &&& r@[k].ruta@ == carpeta@
                    &&& r@[k].ya_enviado == enviado(log@, r@[k].nombre@)
                },
            r@.map_values(|p: InfoPdf| p.nombre@).to_multiset() == nv.take(i as int).filter(
                |n: Seq<char>| es_pdf(n),
            ).to_multiset(),
            forall|a: int, b: int|
                0 <= a < b < r@.len() ==> menor_igual(#[trigger] r@[a].nombre@, #[trigger] r@[b].nombre@),
        decreases nombres@.len() - i,
    {
        let nombre = &nombres[i];
        let ghost pre = nv.take(i + 1);
        assert(pre.drop_last() == nv.take(i as int));
        assert(pre.last() == nombre@);
        assert(pre.filter(|n: Seq<char>| es_pdf(n)) == if es_pdf(nombre@) {
            nv.take(i as int).filter(|n: Seq<char>| es_pdf(n)).push(nombre@)
        } else {
            nv.take(i as int).filter(|n: Seq<char>| es_pdf(n))
        }) by {
            reveal(Seq::filter);
        }
        if es_nombre_pdf(nombre.as_str()) {
            let ya = fue_enviado(log, nombre);
            let nv_c = caracteres(nombre.as_str());
            let mut p: usize = 0;
            while p < r.len() && menor_igual_exec(&caracteres(r[p].nombre.as_str()), &nv_c)
                invariant
                    p <= r@.len(),
                    nv_c@ == nombre@,
                    forall|q: int| 0 <= q < p ==> menor_igual(#[trigger] r@[q].nombre@, nombre@),
                decreases r@.len() - p,
            {
                p = p + 1;
            }
            let ghost r0 = r@;
            let info = InfoPdf { nombre: nombre.clone(), ruta: carpeta.clone(), ya_enviado: ya };
            proof {
                if p < r0.len() {
                    assert(!menor_igual(r0[p as int].nombre@, nombre@));
                    ley_orden_total(r0[p as int].nombre@, nombre@, nombre@);
                    assert forall|q: int| p <= q < r0.len() implies menor_igual(
                        nombre@,
                        #[trigger] r0[q].nombre@,
                    ) by {
                        ley_orden_total(nombre@, r0[p as int].nombre@, r0[q].nombre@);
                        if q > p {
                            assert(menor_igual(r0[p as int].nombre@, r0[q].nombre@));
                        }
                    }
                }
            }
            r.insert(p, info);
            proof {
                assert(r@ == r0.insert(p as int, info));
                let f = |x: InfoPdf| x.nombre@;
                assert(r@.map_values(f) =~= r0.map_values(f).insert(p as int, nombre@));
                vstd::seq_lib::to_multiset_insert(r0.map_values(f), p as int, nombre@);
                vstd::seq_lib::to_multiset_build(nv.take(i as int).filter(|n: Seq<char>| es_pdf(n)), nombre@);
                assert forall|k: int| 0 <= k < r@.len() implies {
                    &&& es_pdf((#[trigger] r@[k]).nombre@)
                    &&& r@[k].ruta@ == carpeta@
                    &&& r@[k].ya_enviado == enviado(log@, r@[k].nombre@)
                } by {
                    if k < p {
                        assert(r@[k] == r0[k]);
                    } else if k > p {
                        assert(r@[k] == r0[k - 1]);
                    }
                }
                assert forall|a: int, b: int| 0 <= a < b < r@.len() implies menor_igual(
                    #[trigger] r@[a].nombre@,
                    #[trigger] r@[b].nombre@,
                ) by {
                    if a == p {
                        assert(r@[b] == r0[b - 1]);
                    } else if b == p {
                        assert(r@[a] == r0[a]);
                    } else {
                        let a0 = if a < p { a } else { a - 1 };
                        let b0 = if b < p { b } else { b - 1 };
                        assert(r@[a] == r0[a0]);
                        assert(r@[b] == r0[b0]);
                    }
                }
            }
        }
        i = i + 1;
    }
    assert(nv.take(nombres@.len() as int) == nv);
    r
}

} // verus!
