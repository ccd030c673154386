//! The licence kill switch: reading the licence file that GitHub returns.

use vstd::prelude::*;
use vstd::utf8::{decode_utf8, valid_utf8};

use crate::texto::{caracteres, es_espacio, espacio, texto_de};

verus! {

/// Whether the application may be used, and the message to show if not.
#[derive(Debug, PartialEq, Eq)]
pub struct EstadoLicencia {
    pub activo: bool,
    pub mensaje: String,
}

impl EstadoLicencia {
    /// The licence assumed when it cannot be checked: active, no message.
    pub fn permisivo() -> (r: EstadoLicencia)
        ensures
            r.activo,
            r.mensaje@.len() == 0,
    {
        EstadoLicencia { activo: true, mensaje: String::new() }
    }
}

/// The character of a 6-bit value in the standard base64 alphabet
/// (A–Z, a–z, 0–9, "+", "/").
pub open spec fn simbolo_base64(v: int) -> char {
    if v < 26 {
        (('A' as int) + v) as char
    } else if v < 52 {
        (('a' as int) + v - 26) as char
    } else if v < 62 {
        (('0' as int) + v - 52) as char
    } else if v == 62 {
        '+'
    } else {
        '/'
    }
}

/// Standard base64 with padding (RFC 4648): each group of three bytes, read
/// as a 24-bit number, gives four characters; a last group of one or two
/// bytes gives two or three characters and "=" padding.
pub open spec fn base64_codificado(b: Seq<u8>) -> Seq<char>
    decreases b.len(),
{
    if b.len() == 0 {
        Seq::empty()
    } else if b.len() == 1 {
        let n = b[0] * 65536;
        seq![simbolo_base64(n / 262144), simbolo_base64((n / 4096) % 64), '=', '=']
    } else if b.len() == 2 {
        let n = b[0] * 65536 + b[1] * 256;
        seq![
            simbolo_base64(n / 262144),
            simbolo_base64((n / 4096) % 64),
            simbolo_base64((n / 64) % 64),
            '=',
        ]
    } else {
        let n = b[0] * 65536 + b[1] * 256 + b[2];
        seq![
            simbolo_base64(n / 262144),
            simbolo_base64((n / 4096) % 64),
            simbolo_base64((n / 64) % 64),
            simbolo_base64(n % 64),
        ] + base64_codificado(b.skip(3))
    }
}

/// What the base64 crate's `STANDARD` engine decodes from a text: it
/// accepts exactly the canonical padded encodings, so the bytes whose
/// encoding the text is, and `None` when it is no such encoding.
pub open spec fn base64_estandar(texto: Seq<char>) -> Option<Seq<u8>> {
    if exists|b: Seq<u8>| base64_codificado(b) == texto {
        Some(choose|b: Seq<u8>| base64_codificado(b) == texto)
    } else {
        None
    }
}

/// `base64::engine::general_purpose::STANDARD.decode`: the bytes whose
/// standard padded encoding the text is, if any.
#[verifier::external_body]
fn decodificar_base64(texto: &str) -> (r: Option<Vec<u8>>)
    ensures
        match r {
            Some(b) => base64_estandar(texto@) == Some(b@),
            None => base64_estandar(texto@) is None,
        },
{
    base64::Engine::decode(&base64::engine::general_purpose::STANDARD, texto).ok()
}

/// `String::from_utf8`: the text the bytes encode, if they are UTF-8.
#[verifier::external_body]
fn texto_utf8(bytes: Vec<u8>) -> (r: Option<String>)
    ensures
        r is Some <==> valid_utf8(bytes@),
        r matches Some(s) ==> s@ == decode_utf8(bytes@),
{
    String::from_utf8(bytes).ok()
}

/// `s` without white space.
pub open spec fn sin_blancos(s: Seq<char>) -> Seq<char>
    decreases s.len(),
{
    if s.len() == 0 {
        s
    } else if espacio(s.last()) {
        sin_blancos(s.drop_last())
    } else {
        sin_blancos(s.drop_last()).push(s.last())
    }
}

/// The licence file's text from the base64 content GitHub sends (with line
/// breaks inside): `None` when it is not base64 of UTF-8 text.
pub open spec fn contenido_spec(b64: Seq<char>) -> Option<Seq<char>> {
    match base64_estandar(sin_blancos(b64)) {
        Some(bytes) => if valid_utf8(bytes) {
            Some(decode_utf8(bytes))
        } else {
            None
        },
        None => None,
    }
}

/// Decodes the licence file's content as GitHub sends it.
pub fn decodificar_contenido(b64: &str) -> (r: Option<String>)
    ensures
        r.deep_view() == contenido_spec(b64@),
{
    let v = caracteres(b64);
    let mut w: Vec<char> = Vec::new();
    let mut i: usize = 0;
    while i < v.len()
        invariant
            i <= v.len(),
            w@ == sin_blancos(v@.take(i as int)),
        decreases v.len() - i,
    {
        assert(v@.take(i + 1).drop_last() == v@.take(i as int));
        if !es_espacio(v[i]) {
            w.push(v[i]);
        }
        i = i + 1;
    }
    assert(v@.take(v.len() as int) == v@);
    let limpio = texto_de(&w);
    match decodificar_base64(limpio.as_str()) {
        Some(bytes) => texto_utf8(bytes),
        None => None,
    }
}

/// The licence from the fields "activo" and "mensaje" of the licence file:
/// active unless "activo" is false.
pub fn estado_desde_campos(activo: Option<bool>, mensaje: Option<String>) -> (r: EstadoLicencia)
    ensures
        r.activo == match activo {
            Some(b) => b,
            None => true,
        },
        r.mensaje@ == match mensaje {
            Some(m) => m@,
            None => Seq::<char>::empty(),
        },
{
    EstadoLicencia {
        activo: match activo {
            Some(b) => b,
            None => true,
        },
        mensaje: match mensaje {
            Some(m) => m,
            None => String::new(),
        },
    }
}

/// The licence from the outcome of checking it: when the check failed, the
/// permissive licence.
pub fn resolver_licencia(resultado: Option<EstadoLicencia>) -> (r: EstadoLicencia)
    ensures
        resultado matches Some(e) ==> r == e,
        resultado is None ==> r.activo && r.mensaje@.len() == 0,
{
    match resultado {
        Some(e) => e,
        None => EstadoLicencia::permisivo(),
    }
}

/// What serde_json reads from the licence file's text: `None` when the
/// text is not JSON; otherwise the field "activo" if it is a boolean and
/// the field "mensaje" if it is a string.
pub uninterp spec fn licencia_json(texto: Seq<char>) -> Option<(Option<bool>, Option<Seq<char>>)>;

/// `serde_json::from_str::<serde_json::Value>`, then the boolean "activo" and
/// the string "mensaje" of the value; its result is named.
#[verifier::external_body]
fn campos_json(texto: &str) -> (r: Option<(Option<bool>, Option<String>)>)
    ensures
        r.deep_view() == licencia_json(texto@),
{
    serde_json::from_str::<serde_json::Value>(texto).ok().map(
        |v| (v["activo"].as_bool(), v["mensaje"].as_str().map(|m| m.to_string())),
    )
}

/// The licence from the base64 content of the licence file: the permissive
/// licence when the content does not decode to UTF-8 text or the text is not
/// JSON; otherwise active unless "activo" is false, with "mensaje" (empty
/// when absent) as the message.
pub fn licencia_desde_contenido(b64: &str) -> (r: EstadoLicencia)
    ensures
        match contenido_spec(b64@) {
            None => r.activo && r.mensaje@.len() == 0,
            Some(texto) => match licencia_json(texto) {
                None => r.activo && r.mensaje@.len() == 0,
                Some((activo, mensaje)) => {
                    &&& r.activo == match activo {
                        Some(b) => b,
                        None => true,
                    }
                    &&& r.mensaje@ == match mensaje {
                        Some(m) => m,
                        None => Seq::<char>::empty(),
                    }
                },
            },
        },
{
    let resultado = match decodificar_contenido(b64) {
        None => None,
        Some(texto) => match campos_json(texto.as_str()) {
            None => None,
            Some((activo, mensaje)) => Some(estado_desde_campos(activo, mensaje)),
        },
    };
    resolver_licencia(resultado)
}

} // verus!
