//! The SIGN+ signing service: the certification text, the form sent with a
//! PDF and the reading of the service's answers.

use vstd::prelude::*;

use crate::fechas::{ahora_local, formato_fecha, escribir_fecha, instante_valido, Instante};
use crate::ocr::grupo;
use crate::patrones::{capturas, regex_grupos};
use crate::texto::{
    analizar_entero, analizar_i64, anexar_decimal, anexar_decimal_relleno, anexar_str, caracteres,
    decimal, decimal_relleno, texto_de,
};

verus! {

/// The name of month `mes` as the certification writes it: month 0 reads
/// as January, months after December as "?".
pub open spec fn nombre_mes(mes: nat) -> Seq<char> {
    if mes <= 1 {
        "enero"@
    } else if mes == 2 {
        "febrero"@
    } else if mes == 3 {
        "marzo"@
    } else if mes == 4 {
        "abril"@
    } else if mes == 5 {
        "mayo"@
    } else if mes == 6 {
        "junio"@
    } else if mes == 7 {
        "julio"@
    } else if mes == 8 {
        "agosto"@
    } else if mes == 9 {
        "septiembre"@
    } else if mes == 10 {
        "octubre"@
    } else if mes == 11 {
        "noviembre"@
    } else if mes == 12 {
        "diciembre"@
    } else {
        "?"@
    }
}

fn nombre_mes_exec(mes: u32) -> (r: &'static str)
    ensures
        r@ == nombre_mes(mes as nat),
{
    if mes <= 1 {
        "enero"
    } else if mes == 2 {
        "febrero"
    } else if mes == 3 {
        "marzo"
    } else if mes == 4 {
        "abril"
    } else if mes == 5 {
        "mayo"
    } else if mes == 6 {
        "junio"
    } else if mes == 7 {
        "julio"
    } else if mes == 8 {
        "agosto"
    } else if mes == 9 {
        "septiembre"
    } else if mes == 10 {
        "octubre"
    } else if mes == 11 {
        "noviembre"
    } else if mes == 12 {
        "diciembre"
    } else {
        "?"
    }
}

/// The certification text of a copy of a deed.
pub open spec fn cuerpo_cert(tipo: Seq<char>, dia: nat, mes: nat, anio: nat) -> Seq<char> {
    "Certifico que el presente documento electrónico es copia fiel e íntegra de "@ + tipo
        + " otorgado el "@ + decimal(dia) + " de "@ + nombre_mes(mes) + " de "@ + decimal(anio)
        + " reproducido en las siguientes páginas."@
}

/// Writes the certification text for a deed of kind `tipo` granted on
/// `dia`/`mes`/`anio`.
pub fn generar_cuerpo_cert(tipo: &str, dia: u32, mes: u32, anio: u32) -> (r: String)
    ensures
        r@ == cuerpo_cert(tipo@, dia as nat, mes as nat, anio as nat),
{
    let mut v = caracteres(
        "Certifico que el presente documento electrónico es copia fiel e íntegra de ",
    );
    anexar_str(&mut v, tipo);
    anexar_str(&mut v, " otorgado el ");
    anexar_decimal(&mut v, dia as u64);
    anexar_str(&mut v, " de ");
    anexar_str(&mut v, nombre_mes_exec(mes));
    anexar_str(&mut v, " de ");
    anexar_decimal(&mut v, anio as u64);
    anexar_str(&mut v, " reproducido en las siguientes páginas.");
    texto_de(&v)
}

/// The token in the login page: `localStorage.setItem('token', '...')`.
pub const RE_TOKEN: &'static str = "localStorage\\.setItem\\('token',\\s*'([^']+)'\\)";

/// The session token that the login page sets, if it sets one.
pub open spec fn token_spec(html: Seq<char>) -> Option<Seq<char>> {
    match regex_grupos(RE_TOKEN@, html) {
        Some(g) => grupo(g, 1),
        None => None,
    }
}

/// Reads the session token from the login page.
pub fn extraer_token(html: &str) -> (r: Option<String>)
    ensures
        r.deep_view() == token_spec(html@),
{
    match capturas(RE_TOKEN, html) {
        Some(g) => {
            if 1 < g.len() {
                match &g[1] {
                    Some(t) => Some(t.clone()),
                    None => None,
                }
            } else {
                None
            }
        },
        None => None,
    }
}

/// What is sent to SIGN+ with the PDF of a deed.
#[derive(Debug, PartialEq, Eq)]
pub struct FormularioSignPlus {
    pub repertorio: String,
    pub anho: i64,
    pub tipo_contrato: String,
    /// The deed's date, "YYYY-MM-DD".
    pub fecha_escritura: String,
    /// The day of the submission, "YYYY-MM-DD".
    pub fecha_emision: String,
    pub cuerpo_cert: String,
}

/// The form for a deed, submitted at moment `hoy`: the year as an integer
/// (0 when it does not read as one), the dates written out and the
/// certification text.
pub fn preparar_formulario_en(
    numero: &str,
    anho: &str,
    tipo_contrato: &str,
    fecha_dia: u32,
    fecha_mes: u32,
    fecha_anio: u32,
    hoy: &Instante,
) -> (r: FormularioSignPlus)
    ensures
        r.repertorio@ == numero@,
        r.anho == match analizar_entero(anho@) {
            Some(v) => v,
            None => 0,
        },
        r.tipo_contrato@ == tipo_contrato@,
        r.fecha_escritura@ == decimal_relleno(fecha_anio as nat, 4) + "-"@ + decimal_relleno(
            fecha_mes as nat,
            2,
        ) + "-"@ + decimal_relleno(fecha_dia as nat, 2),
        r.fecha_emision@ == formato_fecha(hoy.anio as int, hoy.mes as nat, hoy.dia as nat),
        r.cuerpo_cert@ == cuerpo_cert(
            tipo_contrato@,
            fecha_dia as nat,
            fecha_mes as nat,
            fecha_anio as nat,
        ),
{
    let anho_int = match analizar_i64(anho) {
        Some(v) => v,
        None => 0,
    };
    let mut f: Vec<char> = Vec::new();
    anexar_decimal_relleno(&mut f, fecha_anio as u64, 4);
    anexar_str(&mut f, "-");
    anexar_decimal_relleno(&mut f, fecha_mes as u64, 2);
    anexar_str(&mut f, "-");
    anexar_decimal_relleno(&mut f, fecha_dia as u64, 2);
    FormularioSignPlus {
        repertorio: numero.to_owned(),
        anho: anho_int,
        tipo_contrato: tipo_contrato.to_owned(),
        fecha_escritura: texto_de(&f),
        fecha_emision: escribir_fecha(hoy.anio, hoy.mes, hoy.dia),
        cuerpo_cert: generar_cuerpo_cert(tipo_contrato, fecha_dia, fecha_mes, fecha_anio),
    }
}

/// The form for a deed submitted now.
pub fn preparar_formulario(
    numero: &str,
    anho: &str,
    tipo_contrato: &str,
    fecha_dia: u32,
    fecha_mes: u32,
    fecha_anio: u32,
) -> (r: FormularioSignPlus)
    ensures
        exists|hoy: Instante|
            instante_valido(hoy) && r.fecha_emision@ == #[trigger] formato_fecha(
                hoy.anio as int,
                hoy.mes as nat,
                hoy.dia as nat,
            ),
        r.repertorio@ == numero@,
        r.anho == match analizar_entero(anho@) {
            Some(v) => v,
            None => 0,
        },
        r.tipo_contrato@ == tipo_contrato@,
        r.fecha_escritura@ == decimal_relleno(fecha_anio as nat, 4) + "-"@ + decimal_relleno(
            fecha_mes as nat,
            2,
        ) + "-"@ + decimal_relleno(fecha_dia as nat, 2),
        r.cuerpo_cert@ == cuerpo_cert(
            tipo_contrato@,
            fecha_dia as nat,
            fecha_mes as nat,
            fecha_anio as nat,
        ),
{
    let hoy = ahora_local();
    preparar_formulario_en(numero, anho, tipo_contrato, fecha_dia, fecha_mes, fecha_anio, &hoy)
}

/// The error for a submission that SIGN+ did not accept.
pub open spec fn rechazo(mensaje: Option<Seq<char>>) -> Seq<char> {
    "SIGN+: "@ + match mensaje {
        Some(m) => m,
        None => "Error desconocido"@,
    }
}

/// Reads SIGN+'s answer to a submission, given its fields "estado" and
/// "mensaje": accepted only when "estado" is true.
pub fn interpretar_respuesta(estado: Option<bool>, mensaje: Option<String>) -> (r: Result<(), String>)
    ensures
        estado == Some(true) ==> r is Ok,
        estado != Some(true) ==> (r matches Err(e) && e@ == rechazo(mensaje.deep_view())),
{
    let aceptado = match estado {
        Some(b) => b,
        None => false,
    };
    if aceptado {
        Ok(())
    } else {
        let mut v = caracteres("SIGN+: ");
        match &mensaje {
            Some(m) => anexar_str(&mut v, m.as_str()),
            None => anexar_str(&mut v, "Error desconocido"),
        }
        Err(texto_de(&v))
    }
}


/// The Spanish month names, January first.
pub open spec fn meses() -> Seq<Seq<char>> {
    seq![
        "enero"@,
        "febrero"@,
        "marzo"@,
        "abril"@,
        "mayo"@,
        "junio"@,
        "julio"@,
        "agosto"@,
        "septiembre"@,
        "octubre"@,
        "noviembre"@,
        "diciembre"@,
    ]
}

/// Month `m` of the year (1 to 12) is written with the `m`-th Spanish month
/// name, and no two months share a name.
pub proof fn ley_nombre_mes(m: nat)
    ensures
        1 <= m <= 12 ==> nombre_mes(m) == meses()[m - 1],
        nombre_mes(1) == "enero"@ && nombre_mes(2) == "febrero"@ && nombre_mes(3) == "marzo"@
            && nombre_mes(4) == "abril"@ && nombre_mes(5) == "mayo"@ && nombre_mes(6) == "junio"@
            && nombre_mes(7) == "julio"@ && nombre_mes(8) == "agosto"@ && nombre_mes(9)
            == "septiembre"@ && nombre_mes(10) == "octubre"@ && nombre_mes(11) == "noviembre"@
            && nombre_mes(12) == "diciembre"@,
        forall|a: int, b: int| 0 <= a < b < 12 ==> meses()[a] != meses()[b],
{
    reveal_strlit("enero");
    reveal_strlit("febrero");
    reveal_strlit("marzo");
    reveal_strlit("abril");
    reveal_strlit("mayo");
    reveal_strlit("junio");
    reveal_strlit("julio");
    reveal_strlit("agosto");
    reveal_strlit("septiembre");
    reveal_strlit("octubre");
    reveal_strlit("noviembre");
    reveal_strlit("diciembre");
    let ms = meses();
    assert forall|a: int, b: int| 0 <= a < b < 12 implies ms[a] != ms[b] by {
        if ms[a] == ms[b] {
            assert(ms[a].len() == ms[b].len());
            assert(ms[a][0] == ms[b][0]);
            assert(ms[a][ms[a].len() - 1] == ms[b][ms[b].len() - 1]);
            if ms[a].len() > 2 {
                assert(ms[a][2] == ms[b][2]);
            }
        }
    }
}

} // verus!
