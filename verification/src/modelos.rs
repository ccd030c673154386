//! Records shared by the planilla, repertorio and firma modules.

use vstd::prelude::*;

verus! {

// ─── Spreadsheet cells ───────────────────────────────────────────────────────

/// A spreadsheet cell, with what the rules read from it.
///
/// A floating-point cell is given by its value truncated to `i64` (as `as`
/// truncates, saturating) and whether it is below 1, which decides whether
/// it reads as a date.
#[derive(Debug, PartialEq, Eq)]
pub enum Celda {
    Vacia,
    Texto(String),
    Decimal { truncado: i64, menor_que_uno: bool },
    Entero(i64),
    Logico(bool),
    Otra,
}

// ─── Repertorios ─────────────────────────────────────────────────────────────

/// One entry of the historical repertorio database.
#[derive(Debug, PartialEq, Eq)]
pub struct Registro {
    pub repertorio: String,
    pub ot: String,
    pub fecha: String,
    pub cliente: String,
    pub materia: String,
    pub compareciente: String,
}

/// The plain-text content of a [`Registro`].
pub struct RegistroV {
    pub repertorio: Seq<char>,
    pub ot: Seq<char>,
    pub fecha: Seq<char>,
    pub cliente: Seq<char>,
    pub materia: Seq<char>,
    pub compareciente: Seq<char>,
}

impl View for Registro {
    type V = RegistroV;

    open spec fn view(&self) -> RegistroV {
        RegistroV {
            repertorio: self.repertorio@,
            ot: self.ot@,
            fecha: self.fecha@,
            cliente: self.cliente@,
            materia: self.materia@,
            compareciente: self.compareciente@,
        }
    }
}

impl Clone for Registro {
    fn clone(&self) -> (r: Self)
        ensures
            r == *self,
    {
        Registro {
            repertorio: self.repertorio.clone(),
            ot: self.ot.clone(),
            fecha: self.fecha.clone(),
            cliente: self.cliente.clone(),
            materia: self.materia.clone(),
            compareciente: self.compareciente.clone(),
        }
    }
}

/// A repertorio that was already stored when a spreadsheet brought it again.
#[derive(Debug, PartialEq, Eq)]
pub struct Duplicado {
    pub numero: String,
    pub existente: Registro,
    pub entrante: Registro,
}

/// The plain-text content of a [`Duplicado`].
pub struct DuplicadoV {
    pub numero: Seq<char>,
    pub existente: RegistroV,
    pub entrante: RegistroV,
}

impl View for Duplicado {
    type V = DuplicadoV;

    open spec fn view(&self) -> DuplicadoV {
        DuplicadoV { numero: self.numero@, existente: self.existente@, entrante: self.entrante@ }
    }
}

// ─── Casos de firma ──────────────────────────────────────────────────────────

/// The data that the signing service needs for one deed.
#[derive(Debug, PartialEq, Eq)]
pub struct Caso {
    pub numero: String,
    pub anho: String,
    pub tipo_contrato: String,
    pub fecha_dia: u32,
    pub fecha_mes: u32,
    pub fecha_anio: u32,
}

/// The plain content of a [`Caso`].
pub struct CasoV {
    pub numero: Seq<char>,
    pub anho: Seq<char>,
    pub tipo_contrato: Seq<char>,
    pub fecha_dia: u32,
    pub fecha_mes: u32,
    pub fecha_anio: u32,
}

impl View for Caso {
    type V = CasoV;

    open spec fn view(&self) -> CasoV {
        CasoV {
            numero: self.numero@,
            anho: self.anho@,
            tipo_contrato: self.tipo_contrato@,
            fecha_dia: self.fecha_dia,
            fecha_mes: self.fecha_mes,
            fecha_anio: self.fecha_anio,
        }
    }
}

impl Clone for Caso {
    fn clone(&self) -> (r: Self)
        ensures
            r == *self,
    {
        Caso {
            numero: self.numero.clone(),
            anho: self.anho.clone(),
            tipo_contrato: self.tipo_contrato.clone(),
            fecha_dia: self.fecha_dia,
            fecha_mes: self.fecha_mes,
            fecha_anio: self.fecha_anio,
        }
    }
}

// ─── Planilla ────────────────────────────────────────────────────────────────

/// A row read from the AUTOFIN SP input spreadsheet.
#[derive(Debug, Clone, PartialEq, Eq)]
pub struct FilaEntrada {
    pub numero: i64,
    pub nombre: String,
    pub rut: String,
    pub nombre_para: Option<String>,
    pub rut_para: String,
    pub operacion: String,
    pub patente: String,
    pub tipo: String,
    pub num_fila_excel: usize,
}

/// The plain content of a [`FilaEntrada`].
pub struct FilaEntradaV {
    pub numero: i64,
    pub nombre: Seq<char>,
    pub rut: Seq<char>,
    pub nombre_para: Option<Seq<char>>,
    pub rut_para: Seq<char>,
    pub operacion: Seq<char>,
    pub patente: Seq<char>,
    pub tipo: Seq<char>,
    pub num_fila_excel: usize,
}

impl View for FilaEntrada {
    type V = FilaEntradaV;

    open spec fn view(&self) -> FilaEntradaV {
        FilaEntradaV {
            numero: self.numero,
            nombre: self.nombre@,
            rut: self.rut@,
            nombre_para: self.nombre_para.deep_view(),
            rut_para: self.rut_para@,
            operacion: self.operacion@,
            patente: self.patente@,
            tipo: self.tipo@,
            num_fila_excel: self.num_fila_excel,
        }
    }
}

/// A row of the output planilla (the SRCeI bulk format).
#[derive(Debug, Clone, PartialEq, Eq)]
pub struct FilaSalida {
    pub c1_rut: String,
    pub c1_apellido_paterno: String,
    pub c1_apellido_materno: Option<String>,
    pub c1_nombres: Option<String>,
    pub c2_rut: String,
    pub c2_apellido_paterno: String,
    pub c2_apellido_materno: Option<String>,
    pub c2_nombres: Option<String>,
    pub tasacion_fiscal: Option<String>,
    pub precio_venta: Option<String>,
    pub patente: Option<String>,
    pub tipo_vehiculo: Option<String>,
    pub marca: Option<String>,
    pub modelo: Option<String>,
    pub anio: Option<String>,
    pub color: Option<String>,
    pub motor: Option<String>,
    pub chasis: Option<String>,
    pub serie: Option<String>,
    pub vin: Option<String>,
    pub codigo_operacion: Option<String>,
}

/// The plain-text content of a [`FilaSalida`].
pub struct FilaSalidaV {
    pub c1_rut: Seq<char>,
    pub c1_apellido_paterno: Seq<char>,
    pub c1_apellido_materno: Option<Seq<char>>,
    pub c1_nombres: Option<Seq<char>>,
    pub c2_rut: Seq<char>,
    pub c2_apellido_paterno: Seq<char>,
    pub c2_apellido_materno: Option<Seq<char>>,
    pub c2_nombres: Option<Seq<char>>,
    pub tasacion_fiscal: Option<Seq<char>>,
    pub precio_venta: Option<Seq<char>>,
    pub patente: Option<Seq<char>>,
    pub tipo_vehiculo: Option<Seq<char>>,
    pub marca: Option<Seq<char>>,
    pub modelo: Option<Seq<char>>,
    pub anio: Option<Seq<char>>,
    pub color: Option<Seq<char>>,
    pub motor: Option<Seq<char>>,
    pub chasis: Option<Seq<char>>,
    pub serie: Option<Seq<char>>,
    pub vin: Option<Seq<char>>,
    pub codigo_operacion: Option<Seq<char>>,
}

impl View for FilaSalida {
    type V = FilaSalidaV;

    open spec fn view(&self) -> FilaSalidaV {
        FilaSalidaV {
            c1_rut: self.c1_rut@,
            c1_apellido_paterno: self.c1_apellido_paterno@,
            c1_apellido_materno: self.c1_apellido_materno.deep_view(),
            c1_nombres: self.c1_nombres.deep_view(),
            c2_rut: self.c2_rut@,
            c2_apellido_paterno: self.c2_apellido_paterno@,
            c2_apellido_materno: self.c2_apellido_materno.deep_view(),
            c2_nombres: self.c2_nombres.deep_view(),
            tasacion_fiscal: self.tasacion_fiscal.deep_view(),
            precio_venta: self.precio_venta.deep_view(),
            patente: self.patente.deep_view(),
            tipo_vehiculo: self.tipo_vehiculo.deep_view(),
            marca: self.marca.deep_view(),
            modelo: self.modelo.deep_view(),
            anio: self.anio.deep_view(),
            color: self.color.deep_view(),
            motor: self.motor.deep_view(),
            chasis: self.chasis.deep_view(),
            serie: self.serie.deep_view(),
            vin: self.vin.deep_view(),
            codigo_operacion: self.codigo_operacion.deep_view(),
        }
    }
}

/// One line of the summary shown after loading spreadsheets.
#[derive(Debug, Clone, PartialEq, Eq)]
pub struct FilaResumen {
    pub n: String,
    pub nombre: String,
    pub rut: String,
}

/// What loading the input spreadsheets reports.
#[derive(Debug, Clone, PartialEq, Eq)]
pub struct ResultadoCargaPlanilla {
    pub ok: bool,
    pub nombre: String,
    pub filas: Vec<FilaResumen>,
    pub avisos: Vec<String>,
    pub error: Option<String>,
}

/// The planilla kept in memory between loading and writing it.
#[derive(Debug, Clone, PartialEq, Eq)]
pub struct EstadoPlanilla {
    pub filas: Vec<FilaSalida>,
    pub prefijo_sp: String,
}

impl Default for EstadoPlanilla {
    /// An empty planilla, as the application starts with.
    fn default() -> (r: EstadoPlanilla)
        ensures
            r.filas@.len() == 0,
            r.prefijo_sp@ == Seq::<char>::empty(),
    {
        EstadoPlanilla { filas: Vec::new(), prefijo_sp: String::new() }
    }
}

} // verus!
