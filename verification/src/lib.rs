//! Verified core of JUAN-VIVI, the notary office assistant: the AUTOFIN SP
//! planilla rules, the case and repertorio databases, OCR text analysis and
//! the decisions of the signing workflow.

pub mod texto;
pub mod almacenamiento;
pub mod modelos;
pub mod transformador;
pub mod tabla;
pub mod casos;
pub mod fechas;
pub mod repertorios;
pub mod lector;
pub mod patrones;
pub mod planilla;
pub mod ocr;
pub mod firma;
pub mod signplus;
pub mod licencia;
pub mod impresion;
pub mod vigilador;
