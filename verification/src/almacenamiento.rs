//! Where the application keeps its files, and the list of PDFs already sent.

use vstd::prelude::*;

use crate::texto::{caracteres, iguales, vistas};

verus! {

/// The name of the application's folder inside the user's local data folder.
pub const CARPETA_APP: &'static str = "JUAN-VIVI";

/// The file that lists the PDFs already sent.
pub const ENVIADOS_FILE: &'static str = "enviados.json";

/// A single path component: not empty, neither "." nor "..", without
/// separators, a drive colon or a `?`, so that joining it to a folder
/// appends it there on every platform.
pub open spec fn componente_simple(s: Seq<char>) -> bool {
    &&& s.len() > 0
    &&& s != seq!['.']
    &&& s != seq!['.', '.']
    &&& forall|i: int|
        0 <= i < s.len() ==> s[i] != '/' && s[i] != '\\' && s[i] != ':' && s[i] != '?'
}

/// A folder path that does not start with `\\?`, hence not with the
/// verbatim prefix `\\?\` under which Windows rebuilds what is joined to it.
pub open spec fn base_ordinaria(s: Seq<char>) -> bool {
    !(s.len() >= 3 && s[0] == '\\' && s[1] == '\\' && s[2] == '?')
}

/// `dirs::data_local_dir`, as text. It depends on the user and the machine,
/// so nothing is stated of what it returns.
#[verifier::external_body]
fn directorio_local() -> (r: Option<String>) {
    dirs::data_local_dir().map(|p| p.to_string_lossy().into_owned())
}

/// What `Path::join` puts between a folder and a component: nothing, or
/// one separator of the platform.
pub open spec fn separador(sep: Seq<char>) -> bool {
    sep.len() == 0 || sep == seq!['/'] || sep == seq!['\\']
}

/// A folder after which `Path::join` may add no separator: an empty one,
/// one that ends with a separator, or a bare drive such as "C:".
pub open spec fn sin_separador_propio(b: Seq<char>) -> bool {
    b.len() == 0 || b.last() == '/' || b.last() == '\\' || (b.len() == 2 && b[1] == ':')
}

/// `r` is `nombre` joined to `base`, as `Path::join` does for a simple
/// component: the result always ends with the component; a folder that
/// starts with `\\?` stays at the start; and an ordinary folder is kept
/// whole and followed by at most one separator, which is left out only
/// when the folder needs none.
pub open spec fn unida(r: Seq<char>, base: Seq<char>, nombre: Seq<char>) -> bool {
    componente_simple(nombre) ==> {
        &&& exists|p: Seq<char>| r == p + nombre
        &&& !base_ordinaria(base) ==> !base_ordinaria(r)
        &&& base_ordinaria(base) ==> exists|sep: Seq<char>|
            separador(sep) && r == base + sep + nombre && (sep.len() == 0
                ==> sin_separador_propio(base))
    }
}

/// `Path::join` (`PathBuf::push`), as text, for a simple component. The
/// component ends the result. Onto an ordinary folder it is appended after
/// the platform's separator, which is left out when the folder is empty,
/// ends with a separator or is a bare drive. Onto a verbatim folder Windows
/// rebuilds the folder, so only its `\\?` start is stated. Which separator
/// is the platform's is not stated, nor other joins.
#[verifier::external_body]
fn unir_ruta(base: &str, nombre: &str) -> (r: String)
    ensures
        unida(r@, base@, nombre@),
{
    std::path::Path::new(base).join(nombre).to_string_lossy().into_owned()
}

/// The folder the data folder goes in: the user's local data folder when
/// there is one, the working folder "." otherwise.
pub open spec fn base_datos(base: Option<Seq<char>>) -> Seq<char> {
    match base {
        Some(b) => b,
        None => seq!['.'],
    }
}

/// The data folder inside `base` (the user's local data folder, if any).
pub fn dir_datos_desde(base: Option<String>) -> (r: String)
    ensures
        unida(r@, base_datos(base.deep_view()), "JUAN-VIVI"@),
        exists|p: Seq<char>| r@ == p + "JUAN-VIVI"@,
        base is None ==> exists|sep: Seq<char>|
            separador(sep) && sep.len() == 1 && r@ == seq!['.'] + sep + "JUAN-VIVI"@,
{
    let ghost bv = base.deep_view();
    let b = match base {
        Some(b) => b,
        None => ".".to_owned(),
    };
    proof {
        reveal_strlit(".");
        reveal_strlit("JUAN-VIVI");
        assert(b@ == base_datos(bv));
        assert(componente_simple("JUAN-VIVI"@));
    }
    unir_ruta(b.as_str(), "JUAN-VIVI")
}

/// The application's data folder: "JUAN-VIVI" inside the user's local data
/// folder, or inside the working folder when there is none. Which folder
/// that is depends on the user and the machine.
pub fn dir_datos() -> (r: String)
    ensures
        exists|p: Seq<char>| r@ == p + "JUAN-VIVI"@,
        exists|base: Option<Seq<char>>| unida(r@, #[trigger] base_datos(base), "JUAN-VIVI"@),
{
    let base = directorio_local();
    let r = dir_datos_desde(base);
    assert(unida(r@, base_datos(base.deep_view()), "JUAN-VIVI"@));
    r
}

/// `JUAN-VIVI` followed by a separator and `nombre` ends `r`.
pub open spec fn termina_en_archivo(r: Seq<char>, nombre: Seq<char>) -> bool {
    exists|q: Seq<char>, sep: Seq<char>|
        separador(sep) && sep.len() == 1 && r == q + "JUAN-VIVI"@ + sep + nombre
}

proof fn lema_ruta_en_carpeta(dir: Seq<char>, base: Seq<char>, r: Seq<char>, nombre: Seq<char>)
    requires
        componente_simple(nombre),
        unida(dir, base, "JUAN-VIVI"@),
        unida(r, dir, nombre),
    ensures
        exists|p: Seq<char>| r == p + nombre,
        base_ordinaria(r) ==> termina_en_archivo(r, nombre),
        base_ordinaria(base) ==> exists|sep1: Seq<char>, sep2: Seq<char>|
            separador(sep1) && separador(sep2) && r == base + sep1 + "JUAN-VIVI"@ + sep2 + nombre,
{
    reveal_strlit("JUAN-VIVI");
    let j = "JUAN-VIVI"@;
    assert(j =~= seq!['J', 'U', 'A', 'N', '-', 'V', 'I', 'V', 'I']);
    let pd = choose|p: Seq<char>| dir == p + j;
    assert(dir.len() >= 9 && dir.last() == 'I') by {
        assert(dir[dir.len() - 1] == j[8]);
    }
    if base_ordinaria(r) {
        assert(base_ordinaria(dir));
        let sep = choose|sep: Seq<char>|
            separador(sep) && r == dir + sep + nombre && (sep.len() == 0 ==> sin_separador_propio(
                dir,
            ));
        assert(r == pd + j + sep + nombre);
    }
    if base_ordinaria(base) {
        let sep1 = choose|sep: Seq<char>|
            separador(sep) && dir == base + sep + j && (sep.len() == 0 ==> sin_separador_propio(
                base,
            ));
        assert(base_ordinaria(dir)) by {
            if dir.len() >= 3 && dir[0] == '\\' && dir[1] == '\\' && dir[2] == '?' {
                if base.len() >= 3 {
                    assert(dir[0] == base[0] && dir[1] == base[1] && dir[2] == base[2]);
                } else {
                    let k = 2 - base.len() - sep1.len();
                    if k >= 0 {
                        assert(dir[2] == j[k]);
                    } else {
                        assert(dir[2] == sep1[2 - base.len()]);
                    }
                }
            }
        }
        let sep2 = choose|sep: Seq<char>| separador(sep) && r == dir + sep + nombre;
        assert(r == base + sep1 + j + sep2 + nombre);
    }
}

/// The path of the file `nombre` of the data folder inside `base`.
pub fn ruta_archivo_desde(base: Option<String>, nombre: &str) -> (r: String)
    ensures
        exists|dir: Seq<char>|
            unida(dir, base_datos(base.deep_view()), "JUAN-VIVI"@) && #[trigger] unida(
                r@,
                dir,
                nombre@,
            ),
        componente_simple(nombre@) ==> exists|p: Seq<char>| r@ == p + nombre@,
        componente_simple(nombre@) && base_ordinaria(r@) ==> termina_en_archivo(r@, nombre@),
        componente_simple(nombre@) && base_ordinaria(base_datos(base.deep_view()))
            ==> exists|sep1: Seq<char>, sep2: Seq<char>|
            separador(sep1) && separador(sep2) && r@ == base_datos(base.deep_view()) + sep1
                + "JUAN-VIVI"@ + sep2 + nombre@,
{
    let dir = dir_datos_desde(base);
    let r = unir_ruta(dir.as_str(), nombre);
    proof {
        if componente_simple(nombre@) {
            lema_ruta_en_carpeta(dir@, base_datos(base.deep_view()), r@, nombre@);
        }
    }
    r
}

/// The path of a file of the data folder. For a simple file name it ends
/// with the name; unless the path starts with `\\?`, the name comes after
/// "JUAN-VIVI" and a separator.
pub fn ruta_archivo(nombre: &str) -> (r: String)
    ensures
        componente_simple(nombre@) ==> exists|p: Seq<char>| r@ == p + nombre@,
        componente_simple(nombre@) && base_ordinaria(r@) ==> termina_en_archivo(r@, nombre@),
        exists|base: Option<Seq<char>>, dir: Seq<char>|
            unida(dir, #[trigger] base_datos(base), "JUAN-VIVI"@) && #[trigger] unida(
                r@,
                dir,
                nombre@,
            ),
{
    let base = directorio_local();
    let ghost bv = base.deep_view();
    let r = ruta_archivo_desde(base, nombre);
    assert(exists|dir: Seq<char>|
        unida(dir, base_datos(bv), "JUAN-VIVI"@) && #[trigger] unida(r@, dir, nombre@));
    r
}

/// The list with no name twice, in order of first appearance.
pub open spec fn sin_repetidos(s: Seq<Seq<char>>) -> bool {
    forall|i: int, j: int| 0 <= i < j < s.len() ==> s[i] != s[j]
}

/// Adds `x` at the end of `r` unless it is already there.
fn agregar_si_falta(r: &mut Vec<String>, x: String)
    requires
        sin_repetidos(vistas(old(r)@)),
    ensures
        sin_repetidos(vistas(final(r)@)),
        forall|y: Seq<char>| #[trigger] vistas(final(r)@).contains(y) <==> (vistas(
            old(r)@,
        ).contains(y) || y == x@),
{
    let cs = caracteres(x.as_str());
    let mut ya = false;
    let mut j: usize = 0;
    while j < r.len()
        invariant
            j <= r.len(),
            cs@ == x@,
            ya <==> vistas(r@).take(j as int).contains(x@),
        decreases r.len() - j,
    {
        let otro = caracteres(r[j].as_str());
        let igual = iguales(&otro, &cs);
        proof {
            let t = vistas(r@).take(j + 1);
            let p = vistas(r@).take(j as int);
            assert(t == p.push(r@[j as int]@));
            if igual {
                assert(t[j as int] == x@);
            }
            if t.contains(x@) && !p.contains(x@) {
                let k = choose|k: int| 0 <= k < t.len() && t[k] == x@;
                if k < j {
                    assert(p[k] == x@);
                }
            }
            if p.contains(x@) {
                let k = choose|k: int| 0 <= k < p.len() && p[k] == x@;
                assert(t[k] == x@);
            }
        }
        ya = ya || igual;
        j = j + 1;
    }
    assert(vistas(r@).take(r.len() as int) == vistas(r@));
    let ghost antes = vistas(r@);
    if !ya {
        r.push(x);
        proof {
            assert(vistas(r@) == antes.push(x@));
            assert forall|a: int, b: int| 0 <= a < b < vistas(r@).len() implies vistas(r@)[a]
                != vistas(r@)[b] by {
                if b == antes.len() {
                    assert(antes[a] == vistas(r@)[a]);
                    assert(antes.contains(antes[a]));
                } else {
                    assert(antes[a] != antes[b]);
                }
            }
            assert forall|y: Seq<char>| #[trigger] vistas(r@).contains(y) <==> (antes.contains(y)
                || y == x@) by {
                if vistas(r@).contains(y) {
                    let k = choose|k: int| 0 <= k < vistas(r@).len() && vistas(r@)[k] == y;
                    if k < antes.len() {
                        assert(antes[k] == y);
                    }
                }
                if antes.contains(y) {
                    let k = choose|k: int| 0 <= k < antes.len() && antes[k] == y;
                    assert(vistas(r@)[k] == y);
                }
                assert(vistas(r@)[antes.len() as int] == x@);
            }
        }
    }
}

/// The list of PDFs sent after marking `nombre` as sent: no name twice, and
/// exactly the names of `lista` and `nombre`.
pub fn marcar_en_lista(lista: &Vec<String>, nombre: &str) -> (r: Vec<String>)
    ensures
        sin_repetidos(vistas(r@)),
        forall|x: Seq<char>| #[trigger] vistas(r@).contains(x) <==> (vistas(lista@).contains(x) || x
            == nombre@),
{
    let mut r: Vec<String> = Vec::new();
    let mut i: usize = 0;
    while i < lista.len()
        invariant
            i <= lista.len(),
            sin_repetidos(vistas(r@)),
            forall|x: Seq<char>| #[trigger] vistas(r@).contains(x) <==> vistas(lista@).take(
                i as int,
            ).contains(x),
        decreases lista.len() - i,
    {
        let ghost tomadas = vistas(lista@).take(i as int);
        agregar_si_falta(&mut r, lista[i].clone());
        proof {
            let t2 = vistas(lista@).take(i + 1);
            assert(t2 == tomadas.push(lista@[i as int]@));
            assert forall|x: Seq<char>| #[trigger] vistas(r@).contains(x) <==> t2.contains(x) by {
                if t2.contains(x) {
                    let k = choose|k: int| 0 <= k < t2.len() && t2[k] == x;
                    if k < tomadas.len() {
                        assert(tomadas[k] == x);
                    }
                }
                if tomadas.contains(x) {
                    let k = choose|k: int| 0 <= k < tomadas.len() && tomadas[k] == x;
                    assert(t2[k] == x);
                }
                if x == lista@[i as int]@ {
                    assert(t2[i as int] == x);
                }
            }
        }
        i = i + 1;
    }
    assert(vistas(lista@).take(lista.len() as int) == vistas(lista@));
    agregar_si_falta(&mut r, nombre.to_owned());
    r
}

/// What serde_json reads from a text as a list of strings; `None` when the
/// text is not a JSON array of strings.
pub uninterp spec fn lista_json(texto: Seq<char>) -> Option<Seq<Seq<char>>>;

/// What serde_json writes for a list of strings.
pub uninterp spec fn json_de_lista(lista: Seq<Seq<char>>) -> Seq<char>;

/// `serde_json::from_str::<Vec<String>>`; its result is named.
#[verifier::external_body]
fn leer_lista_json(texto: &str) -> (r: Option<Vec<String>>)
    ensures
        r is Some ==> lista_json(texto@) == Some(vistas(r->Some_0@)),
        r is None ==> lista_json(texto@) is None,
{
    serde_json::from_str::<Vec<String>>(texto).ok()
}

/// `serde_json::to_string` of a list of strings (which cannot fail); its
/// result is named, and serde_json reads it back as the same list.
#[verifier::external_body]
fn escribir_lista_json(lista: &Vec<String>) -> (r: String)
    ensures
        r@ == json_de_lista(vistas(lista@)),
        lista_json(r@) == Some(vistas(lista@)),
{
    serde_json::to_string(lista).unwrap_or_default()
}

/// The names in the file of PDFs sent.
pub open spec fn enviados_spec(texto: Seq<char>) -> Seq<Seq<char>> {
    match lista_json(texto) {
        Some(l) => l,
        None => Seq::empty(),
    }
}

/// The PDFs sent, from the text of their file: the list it holds, or none
/// when it does not hold a list of names.
pub fn enviados_desde_texto(texto: &str) -> (r: Vec<String>)
    ensures
        vistas(r@) == enviados_spec(texto@),
{
    match leer_lista_json(texto) {
        Some(l) => l,
        None => Vec::new(),
    }
}

/// The new text of the file of PDFs sent, once `nombre` is marked as sent:
/// a list, with no name twice, of exactly the names it held and `nombre`.
pub fn marcar_enviado_en_texto(texto: &str, nombre: &str) -> (r: String)
    ensures
        exists|l: Seq<Seq<char>>|
            #[trigger] lista_json(r@) == Some(l) && sin_repetidos(l) && forall|x: Seq<char>|
                #[trigger] l.contains(x) <==> (enviados_spec(texto@).contains(x) || x == nombre@),
{
    let lista = enviados_desde_texto(texto);
    let nueva = marcar_en_lista(&lista, nombre);
    let r = escribir_lista_json(&nueva);
    assert(lista_json(r@) == Some(vistas(nueva@)));
    r
}

} // verus!
