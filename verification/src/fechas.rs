//! Calendar dates: adding days through chrono and writing `%Y-%m-%d`.

use vstd::prelude::*;

use crate::texto::{anexar_decimal_relleno, decimal_relleno, texto_de};

use chrono::{Datelike, Timelike};

verus! {

/// The largest number of days that chrono's `TimeDelta::days` accepts.
pub const MAX_DIAS: i64 = 106751991167;

/// The first year of chrono's date range.
pub open spec fn anio_minimo() -> int {
    -262143
}

/// The last year of chrono's date range.
pub open spec fn anio_maximo() -> int {
    262142
}

/// A leap year of the proleptic Gregorian calendar.
pub open spec fn bisiesto(a: int) -> bool {
    a % 4 == 0 && (a % 100 != 0 || a % 400 == 0)
}

/// The number of days of month `m` of year `a`.
pub open spec fn dias_del_mes(a: int, m: int) -> int {
    if m == 2 {
        if bisiesto(a) {
            29
        } else {
            28
        }
    } else if m == 4 || m == 6 || m == 9 || m == 11 {
        30
    } else {
        31
    }
}

/// A date that chrono can represent.
pub open spec fn fecha_valida(a: int, m: int, d: int) -> bool {
    &&& anio_minimo() <= a <= anio_maximo()
    &&& 1 <= m <= 12
    &&& 1 <= d <= dias_del_mes(a, m)
}

/// The number of days from 1970-01-01 to the date `a-m-d`.
pub open spec fn dias_desde_civil(a: int, m: int, d: int) -> int {
    let a2 = if m <= 2 {
        a - 1
    } else {
        a
    };
    let era = a2 / 400;
    let aoe = a2 - era * 400;
    let mp = if m > 2 {
        m - 3
    } else {
        m + 9
    };
    let dda = (153 * mp + 2) / 5 + d - 1;
    let doe = aoe * 365 + aoe / 4 - aoe / 100 + dda;
    era * 146097 + doe - 719468
}

/// The date (year, month, day) that lies `z` days after 1970-01-01.
pub open spec fn civil_desde_dias(z: int) -> (int, int, int) {
    let z2 = z + 719468;
    let era = z2 / 146097;
    let doe = z2 - era * 146097;
    let aoe = (doe - doe / 1460 + doe / 36524 - doe / 146096) / 365;
    let dda = doe - (365 * aoe + aoe / 4 - aoe / 100);
    let mp = (5 * dda + 2) / 153;
    let d = dda - (153 * mp + 2) / 5 + 1;
    let m = if mp < 10 {
        mp + 3
    } else {
        mp - 9
    };
    let a = aoe + era * 400;
    (
        if m <= 2 {
            a + 1
        } else {
            a
        },
        m,
        d,
    )
}

/// The date `dias` days after `anio-mes-dia`, as chrono computes it: `None`
/// when the start is no date of chrono's range or the result leaves it.
pub open spec fn fecha_mas_dias(anio: int, mes: int, dia: int, dias: int) -> Option<
    (int, int, int),
> {
    if !fecha_valida(anio, mes, dia) {
        None
    } else {
        let f = civil_desde_dias(dias_desde_civil(anio, mes, dia) + dias);
        if anio_minimo() <= f.0 <= anio_maximo() {
            Some(f)
        } else {
            None
        }
    }
}

/// chrono's `NaiveDate::from_ymd_opt` followed by `checked_add_signed` with
/// `TimeDelta::days(dias)`, the result read back as year, month and day:
/// the proleptic Gregorian date `dias` days later, within chrono's range of
/// years.
#[verifier::external_body]
fn sumar_dias(anio: i32, mes: u32, dia: u32, dias: i64) -> (r: Option<(i32, u32, u32)>)
    requires
        -MAX_DIAS <= dias <= MAX_DIAS,
    ensures
        match r {
            Some((a, m, d)) => {
                &&& fecha_mas_dias(anio as int, mes as int, dia as int, dias as int) == Some(
                    (a as int, m as int, d as int),
                )
                &&& 1 <= m <= 12
                &&& 1 <= d <= 31
            },
            None => fecha_mas_dias(anio as int, mes as int, dia as int, dias as int) is None,
        },
{
    let inicio = chrono::NaiveDate::from_ymd_opt(anio, mes, dia)?;
    let fin = inicio.checked_add_signed(chrono::TimeDelta::days(dias))?;
    Some((fin.year(), fin.month(), fin.day()))
}

/// chrono's `%Y`: four digits, zero-padded, for years 0 to 9999; a sign and
/// at least four digits otherwise.
pub open spec fn anio_formato(a: int) -> Seq<char> {
    if 0 <= a <= 9999 {
        decimal_relleno(a as nat, 4)
    } else if a < 0 {
        seq!['-'] + decimal_relleno((-a) as nat, 4)
    } else {
        seq!['+'] + decimal_relleno(a as nat, 4)
    }
}

/// A date written as chrono writes `%Y-%m-%d`.
pub open spec fn formato_fecha(a: int, m: nat, d: nat) -> Seq<char> {
    anio_formato(a) + seq!['-'] + decimal_relleno(m, 2) + seq!['-'] + decimal_relleno(d, 2)
}

/// The text of a date as `%Y-%m-%d`.
pub fn escribir_fecha(a: i32, m: u32, d: u32) -> (r: String)
    ensures
        r@ == formato_fecha(a as int, m as nat, d as nat),
{
    let mut v: Vec<char> = Vec::new();
    if 0 <= a && a <= 9999 {
        anexar_decimal_relleno(&mut v, a as u64, 4);
    } else if a < 0 {
        v.push('-');
        let n: u64 = if a == i32::MIN {
            2147483648u64
        } else {
            (-a) as u64
        };
        anexar_decimal_relleno(&mut v, n, 4);
    } else {
        v.push('+');
        anexar_decimal_relleno(&mut v, a as u64, 4);
    }
    assert(v@ =~= anio_formato(a as int));
    v.push('-');
    anexar_decimal_relleno(&mut v, m as u64, 2);
    v.push('-');
    anexar_decimal_relleno(&mut v, d as u64, 2);
    assert(v@ =~= formato_fecha(a as int, m as nat, d as nat));
    texto_de(&v)
}

/// The date of an Excel day number (days after 1899-12-30), or an empty
/// text when chrono's range ends before it.
pub open spec fn fecha_excel(dias: int) -> Seq<char> {
    match fecha_mas_dias(1899, 12, 30, dias) {
        Some((a, m, d)) => formato_fecha(a, m as nat, d as nat),
        None => Seq::empty(),
    }
}

/// Writes the date of an Excel day number (the integer part of a serial).
pub fn fecha_desde_serial(dias: i64) -> (r: String)
    requires
        -MAX_DIAS <= dias <= MAX_DIAS,
    ensures
        r@ == fecha_excel(dias as int),
{
    match sumar_dias(1899, 12, 30, dias) {
        Some((a, m, d)) => escribir_fecha(a, m, d),
        None => String::new(),
    }
}

/// A moment of local time, down to the minute.
#[derive(Debug, Clone, Copy, PartialEq, Eq)]
pub struct Instante {
    pub anio: i32,
    pub mes: u32,
    pub dia: u32,
    pub hora: u32,
    pub minuto: u32,
}

/// A moment whose fields are in the ranges chrono documents.
pub open spec fn instante_valido(t: Instante) -> bool {
    &&& 1 <= t.mes <= 12
    &&& 1 <= t.dia <= 31
    &&& t.hora < 24
    &&& t.minuto < 60
}

/// chrono's `Local::now()`, read as year, month, day, hour and minute. The
/// time is not known in advance: only the documented ranges are stated.
#[verifier::external_body]
pub(crate) fn ahora_local() -> (r: Instante)
    ensures
        instante_valido(r),
{
    let t = chrono::Local::now();
    Instante { anio: t.year(), mes: t.month(), dia: t.day(), hora: t.hour(), minuto: t.minute() }
}

} // verus!
