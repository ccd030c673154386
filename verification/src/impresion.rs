//! Printing the signed deeds: the pairs of PDFs of a ZIP export, and the
//! script that prints one of them.

use vstd::prelude::*;

use crate::tabla::{claves_distintas, lema_mapa_de, mapa_de, Tabla};
use crate::texto::{
    analizar_natural, analizar_u64, anexar, anexar_str, caracteres, empieza_con, empieza_con_str,
    minusculas, minusculas_de, recortado, recortar, reemplazar_caracter, reemplazar_caracter_exec,
    termina_en, termina_en_str, texto_de, tramo, ultima_posicion, ultima_posicion_exec,
};
use crate::transformador::indice_de;

verus! {

/// A pair of PDFs to print: the notary's copy and the signed one.
#[derive(Debug, PartialEq, Eq)]
pub struct ParImpresion {
    /// The file name without extension, e.g. "13364-2026".
    pub nombre: String,
    /// Path of the extracted PDF from `notaria/`.
    pub notaria: String,
    /// Path of the extracted PDF from `firmados/`.
    pub firmados: String,
}

/// The pairs found in a ZIP export.
#[derive(Debug, PartialEq, Eq)]
pub struct ResultadoCargaZip {
    pub pares: Vec<ParImpresion>,
    pub total: usize,
}

/// The two folders of a ZIP export.
#[derive(Debug, PartialEq, Eq, Clone, Copy)]
pub enum Carpeta {
    Notaria,
    Firmados,
}

/// A PDF extracted from the ZIP: its file name and where it was written.
#[derive(Debug, PartialEq, Eq)]
pub struct ArchivoExtraido {
    pub nombre: String,
    pub ruta: String,
}

/// The last component of a ZIP entry name (`split('/').last()`).
pub open spec fn ultimo_componente(s: Seq<char>) -> Seq<char> {
    match ultima_posicion(s, '/') {
        Some(k) => s.skip(k as int + 1),
        None => s,
    }
}

/// Where a ZIP entry goes: its folder and file name when it is a PDF
/// (extension ".pdf" in any case) under `notaria/` or `firmados/`.
pub open spec fn clasificacion(nombre_zip: Seq<char>) -> Option<(Carpeta, Seq<char>)> {
    let archivo = ultimo_componente(nombre_zip);
    if !termina_en(minusculas(archivo), ".pdf"@) {
        None
    } else if empieza_con(nombre_zip, "notaria/"@) {
        Some((Carpeta::Notaria, archivo))
    } else if empieza_con(nombre_zip, "firmados/"@) {
        Some((Carpeta::Firmados, archivo))
    } else {
        None
    }
}

/// Classifies a ZIP entry by its name.
pub fn clasificar_entrada(nombre_zip: &str) -> (r: Option<(Carpeta, String)>)
    ensures
        match clasificacion(nombre_zip@) {
            Some((c, a)) => r is Some && r.unwrap().0 == c && r.unwrap().1@ == a,
            None => r is None,
        },
{
    let v = caracteres(nombre_zip);
    let carpeta = if empieza_con_str(&v, "notaria/") {
        Carpeta::Notaria
    } else if empieza_con_str(&v, "firmados/") {
        Carpeta::Firmados
    } else {
        return None;
    };
    let archivo = match ultima_posicion_exec(&v, '/') {
        Some(k) => {
            assert(k < v.len());
            tramo(&v, k + 1, v.len())
        },
        None => tramo(&v, 0, v.len()),
    };
    assert(archivo@ == ultimo_componente(v@));
    let lc = minusculas_de(&archivo);
    if !termina_en_str(&lc, ".pdf") {
        return None;
    }
    Some((carpeta, texto_de(&archivo)))
}

/// The key that finds a PDF's twin: its file name in lower case.
pub fn clave_archivo(nombre: &str) -> (r: String)
    ensures
        r@ == minusculas(nombre@),
{
    texto_de(&minusculas_de(&caracteres(nombre)))
}

/// What is extracted of a ZIP entry, given the PDFs extracted so far from
/// each folder: its folder, file name and key, when it is a PDF of one of
/// the two folders whose key was not extracted there yet (a file repeated in
/// the ZIP is extracted once).
pub open spec fn a_extraer(
    notaria: Map<Seq<char>, ArchivoExtraido>,
    firmados: Map<Seq<char>, ArchivoExtraido>,
    nombre_zip: Seq<char>,
) -> Option<(Carpeta, Seq<char>, Seq<char>)> {
    match clasificacion(nombre_zip) {
        None => None,
        Some((c, a)) => {
            let ya = if c == Carpeta::Notaria {
                notaria.contains_key(minusculas(a))
            } else {
                firmados.contains_key(minusculas(a))
            };
            if ya {
                None
            } else {
                Some((c, a, minusculas(a)))
            }
        },
    }
}

/// Decides whether a ZIP entry is extracted (see `a_extraer`).
pub fn entrada_a_extraer(
    notaria: &Tabla<ArchivoExtraido>,
    firmados: &Tabla<ArchivoExtraido>,
    nombre_zip: &str,
) -> (r: Option<(Carpeta, String, String)>)
    ensures
        match a_extraer(notaria@, firmados@, nombre_zip@) {
            Some((c, a, k)) => r matches Some((c2, a2, k2)) && c2 == c && a2@ == a && k2@ == k,
            None => r is None,
        },
{
    match clasificar_entrada(nombre_zip) {
        None => None,
        Some((c, a)) => {
            let k = clave_archivo(a.as_str());
            let ya = match c {
                Carpeta::Notaria => notaria.contiene(k.as_str()),
                Carpeta::Firmados => firmados.contiene(k.as_str()),
            };
            if ya {
                None
            } else {
                Some((c, a, k))
            }
        },
    }
}

/// An entry that was extracted is not extracted again once it is recorded
/// under its key.
pub proof fn ley_zip_sin_repeticion(
    notaria: Map<Seq<char>, ArchivoExtraido>,
    firmados: Map<Seq<char>, ArchivoExtraido>,
    nombre_zip: Seq<char>,
    extraido: ArchivoExtraido,
)
    requires
        a_extraer(notaria, firmados, nombre_zip) is Some,
    ensures
        ({
            let (c, a, k) = a_extraer(notaria, firmados, nombre_zip).unwrap();
            if c == Carpeta::Notaria {
                a_extraer(notaria.insert(k, extraido), firmados, nombre_zip) is None
            } else {
                a_extraer(notaria, firmados.insert(k, extraido), nombre_zip) is None
            }
        }),
{
}

/// `Path::file_stem` of a file name: the name up to its last dot, unless
/// that dot is the first character or there is none.
pub open spec fn tallo(nombre: Seq<char>) -> Seq<char> {
    match ultima_posicion(nombre, '.') {
        Some(k) => if k == 0 {
            nombre
        } else {
            nombre.take(k as int)
        },
        None => nombre,
    }
}

/// The number a pair is ordered by: the part of its name before the first
/// dash, read as `u64` (0 when it does not read).
pub open spec fn numero_par(nombre: Seq<char>) -> nat {
    match analizar_natural(nombre.take(indice_de(nombre, '-') as int), 18446744073709551615) {
        Some(v) => v,
        None => 0,
    }
}

/// A pair by its texts: (name, notary path, signed path).
pub open spec fn par_v(p: ParImpresion) -> (Seq<char>, Seq<char>, Seq<char>) {
    (p.nombre@, p.notaria@, p.firmados@)
}

/// The pairs, in the notary folder's order: each notary PDF whose key is
/// also among the signed ones, with both paths.
pub open spec fn pares_spec(
    notaria: Seq<(Seq<char>, ArchivoExtraido)>,
    firmados: Map<Seq<char>, ArchivoExtraido>,
) -> Seq<(Seq<char>, Seq<char>, Seq<char>)>
    decreases notaria.len(),
{
    if notaria.len() == 0 {
        Seq::empty()
    } else {
        let previos = pares_spec(notaria.drop_last(), firmados);
        let (k, a) = notaria.last();
        if firmados.contains_key(k) {
            previos.push((tallo(a.nombre@), a.ruta@, firmados[k].ruta@))
        } else {
            previos
        }
    }
}

fn tallo_exec(nombre: &String) -> (r: String)
    ensures
        r@ == tallo(nombre@),
{
    let v = caracteres(nombre.as_str());
    match ultima_posicion_exec(&v, '.') {
        Some(k) => {
            if k == 0 {
                nombre.clone()
            } else {
                texto_de(&tramo(&v, 0, k))
            }
        },
        None => nombre.clone(),
    }
}

fn numero_par_exec(nombre: &String) -> (r: u64)
    ensures
        r as nat == numero_par(nombre@),
{
    let v = caracteres(nombre.as_str());
    let mut k: usize = 0;
    while k < v.len() && v[k] != '-'
        invariant
            k <= v.len(),
            forall|j: int| 0 <= j < k ==> v@[j] != '-',
        decreases v.len() - k,
    {
        k = k + 1;
    }
    proof {
        crate::transformador::lema_indice_de(v@, '-', k as int);
    }
    let antes = texto_de(&tramo(&v, 0, k));
    match analizar_u64(antes.as_str()) {
        Some(n) => n,
        None => 0,
    }
}

/// Pairs the notary PDFs with the signed ones by key, ordered by the
/// number in their name.
pub fn emparejar(notaria: &Tabla<ArchivoExtraido>, firmados: &Tabla<ArchivoExtraido>) -> (r: Vec<
    ParImpresion,
>)
    ensures
        r@.map_values(|p: ParImpresion| par_v(p)).to_multiset() == pares_spec(
            notaria.entradas_v(),
            firmados@,
        ).to_multiset(),
        forall|i: int, j: int|
            0 <= i < j < r@.len() ==> numero_par(#[trigger] r@[i].nombre@) <= numero_par(
                #[trigger] r@[j].nombre@,
            ),
{
    let ghost e = notaria.entradas_v();
    let n = notaria.len();
    let mut r: Vec<ParImpresion> = Vec::new();
    let mut claves: Vec<u64> = Vec::new();
    let mut i: usize = 0;
    assert(r@.map_values(|p: ParImpresion| par_v(p)) =~= pares_spec(e.take(0), firmados@));
    while i < n
        invariant
            n == e.len(),
            e == notaria.entradas_v(),
            i <= n,
            r@.len() == claves@.len(),
            forall|q: int| 0 <= q < claves@.len() ==> claves@[q] as nat == numero_par(
                #[trigger] r@[q].nombre@,
            ),
            r@.map_values(|p: ParImpresion| par_v(p)).to_multiset() == pares_spec(
                e.take(i as int),
                firmados@,
            ).to_multiset(),
            forall|a: int, b: int|
                0 <= a < b < r@.len() ==> numero_par(#[trigger] r@[a].nombre@) <= numero_par(
                    #[trigger] r@[b].nombre@,
                ),
        decreases n - i,
    {
        let clave = notaria.clave_en(i);
        let archivo = notaria.valor_en(i);
        let ghost pre = e.take(i + 1);
        assert(pre.drop_last() == e.take(i as int));
        assert(pre.last() == e[i as int]);
        match firmados.obtener(clave.as_str()) {
            Some(f) => {
                let par = ParImpresion {
                    nombre: tallo_exec(&archivo.nombre),
                    notaria: archivo.ruta.clone(),
                    firmados: f.ruta.clone(),
                };
                let k = numero_par_exec(&par.nombre);
                let mut p: usize = 0;
                while p < r.len() && claves[p] <= k
                    invariant
                        p <= r@.len(),
                        r@.len() == claves@.len(),
                        forall|q: int| 0 <= q < claves@.len() ==> claves@[q] as nat == numero_par(
                            #[trigger] r@[q].nombre@,
                        ),
                        forall|q: int| 0 <= q < p ==> numero_par(#[trigger] r@[q].nombre@) <= k,
                    decreases r@.len() - p,
                {
                    p = p + 1;
                }
                let ghost r0 = r@;
                let ghost x = par_v(par);
                proof {
                    if p < r0.len() {
                        assert forall|q: int| p <= q < r0.len() implies numero_par(
                            #[trigger] r0[q].nombre@,
                        ) > k by {
                            if q > p {
                                assert(numero_par(r0[p as int].nombre@) <= numero_par(
                                    r0[q].nombre@,
                                ));
                            }
                        }
                    }
                }
                r.insert(p, par);
                claves.insert(p, k);
                proof {
                    let f = |p: ParImpresion| par_v(p);
                    assert(r@.map_values(f) =~= r0.map_values(f).insert(p as int, x));
                    vstd::seq_lib::to_multiset_insert(r0.map_values(f), p as int, x);
                    vstd::seq_lib::to_multiset_build(pares_spec(e.take(i as int), firmados@), x);
                    assert(pares_spec(pre, firmados@) == pares_spec(e.take(i as int), firmados@).push(x));
                    assert forall|q: int| 0 <= q < claves@.len() implies claves@[q] as nat
                        == numero_par(#[trigger] r@[q].nombre@) by {
                        if q < p {
                            assert(r@[q] == r0[q]);
                        } else if q > p {
                            assert(r@[q] == r0[q - 1]);
                        }
                    }
                    assert forall|a: int, b: int| 0 <= a < b < r@.len() implies numero_par(
                        #[trigger] r@[a].nombre@,
                    ) <= numero_par(#[trigger] r@[b].nombre@) by {
                        if a == p {
                            assert(r@[b] == r0[b - 1]);
                        } else if b == p {
                            assert(r@[a] == r0[a]);
                        } else {
                            let a0 = if a < p { a } else { a - 1 };
                            let b0 = if b < p { b } else { b - 1 };
                            assert(r@[a] == r0[a0]);
                            assert(r@[b] == r0[b0]);
                        }
                    }
                }
            },
            None => {
                assert(pares_spec(pre, firmados@) == pares_spec(e.take(i as int), firmados@));
            },
        }
        i = i + 1;
    }
    assert(e.take(n as int) == e);
    r
}

/// The result of loading a ZIP export: its pairs and how many there are.
pub fn resultado_zip(pares: Vec<ParImpresion>) -> (r: ResultadoCargaZip)
    ensures
        r.pares == pares,
        r.total == pares@.len(),
{
    let total = pares.len();
    ResultadoCargaZip { pares, total }
}

// ─── Printers ────────────────────────────────────────────────────────────────

/// The printer names in the output of `Get-Printer`: each line trimmed,
/// the blank ones left out.
pub open spec fn impresoras_spec(ls: Seq<Seq<char>>) -> Seq<Seq<char>>
    decreases ls.len(),
{
    if ls.len() == 0 {
        Seq::empty()
    } else if recortar(ls.last()).len() == 0 {
        impresoras_spec(ls.drop_last())
    } else {
        impresoras_spec(ls.drop_last()).push(recortar(ls.last()))
    }
}

/// The printers listed in the output of `Get-Printer`.
pub fn nombres_impresoras(salida: &str) -> (r: Vec<String>)
    ensures
        r@.map_values(|s: String| s@) == impresoras_spec(crate::ocr::lineas(salida@)),
{
    let ls = crate::ocr::separar_lineas(salida);
    let ghost lv = ls@.map_values(|l: Vec<char>| l@);
    let mut r: Vec<String> = Vec::new();
    let mut i: usize = 0;
    while i < ls.len()
        invariant
            i <= ls@.len(),
            lv == ls@.map_values(|l: Vec<char>| l@),
            r@.map_values(|s: String| s@) == impresoras_spec(lv.take(i as int)),
        decreases ls@.len() - i,
    {
        let ghost pre = lv.take(i + 1);
        assert(pre.drop_last() == lv.take(i as int));
        assert(pre.last() == ls@[i as int]@);
        let t = recortado(&ls[i]);
        if t.len() > 0 {
            r.push(texto_de(&t));
        }
        assert(r@.map_values(|s: String| s@) =~= impresoras_spec(pre));
        i = i + 1;
    }
    assert(lv.take(ls@.len() as int) == lv);
    r
}

/// A fixed piece of the printing script.
pub const GUION_INICIO: &'static str = "\n# Guardar impresora predeterminada actual\n$anterior = (Get-Printer | Where-Object Default -eq $true | Select-Object -First 1).Name\n\n# Poner la impresora elegida como predeterminada\n$wmi = Get-WmiObject -Query \"SELECT * FROM Win32_Printer WHERE Name='";

/// A fixed piece of the printing script.
pub const GUION_TRAS_IMPRESORA: &'static str = "'\"\nif ($wmi) { $wmi.SetDefaultPrinter() | Out-Null } else { Write-Error \"Impresora no encontrada: ";

/// A fixed piece of the printing script.
pub const GUION_ANTES_DE_RUTA: &'static str = "\"; exit 1 }\nStart-Sleep -Milliseconds 500\n\n# Imprimir con ShellExecute \"print\" — funciona con Edge y cualquier visor\nAdd-Type @\"\nusing System;\nusing System.Runtime.InteropServices;\npublic class Shell {\n    [DllImport(\"shell32.dll\", CharSet = CharSet.Auto)]\n    public static extern IntPtr ShellExecute(\n        IntPtr hwnd, string lpOperation, string lpFile,\n        string lpParameters, string lpDirectory, int nShowCmd);\n}\n\"@ -ErrorAction SilentlyContinue\n[Shell]::ShellExecute([IntPtr]::Zero, 'print', '";

/// A fixed piece of the printing script.
pub const GUION_TRAS_RUTA: &'static str = "', '', '', 0)\n\n# Dar tiempo al spooler para recibir el trabajo antes de restaurar\nStart-Sleep -Milliseconds 3000\n\n# Restaurar impresora original\nif ($anterior -and $anterior -ne '";

/// A fixed piece of the printing script.
pub const GUION_FIN: &'static str = "') {\n    $orig = Get-WmiObject -Query \"SELECT * FROM Win32_Printer WHERE Name='$anterior'\"\n    if ($orig) { $orig.SetDefaultPrinter() | Out-Null }\n}\n";

/// A path quoted for PowerShell: each `'` doubled.
pub open spec fn ruta_segura(ruta: Seq<char>) -> Seq<char> {
    reemplazar_caracter(ruta, '\'', "''"@)
}

/// A printer name quoted for PowerShell: each `'` doubled, `"` removed.
pub open spec fn impresora_segura(imp: Seq<char>) -> Seq<char> {
    reemplazar_caracter(reemplazar_caracter(imp, '\'', "''"@), '"', Seq::empty())
}

/// The PowerShell script that makes `imp` the default printer, prints the
/// PDF at `ruta` and restores the previous default.
pub open spec fn guion_spec(ruta: Seq<char>, imp: Seq<char>) -> Seq<char> {
    let i = impresora_segura(imp);
    GUION_INICIO@ + i + GUION_TRAS_IMPRESORA@ + i + GUION_ANTES_DE_RUTA@ + ruta_segura(ruta)
        + GUION_TRAS_RUTA@ + i + GUION_FIN@
}

/// Writes the printing script for a PDF and a printer.
pub fn guion_impresion(ruta_pdf: &str, impresora: &str) -> (r: String)
    ensures
        r@ == guion_spec(ruta_pdf@, impresora@),
{
    proof {
        reveal_strlit("");
        assert(""@ =~= Seq::<char>::empty());
    }
    let ruta = reemplazar_caracter_exec(&caracteres(ruta_pdf), '\'', "''");
    let imp1 = reemplazar_caracter_exec(&caracteres(impresora), '\'', "''");
    let imp = reemplazar_caracter_exec(&imp1, '"', "");
    let mut v = caracteres(GUION_INICIO);
    anexar(&mut v, &imp);
    anexar_str(&mut v, GUION_TRAS_IMPRESORA);
    anexar(&mut v, &imp);
    anexar_str(&mut v, GUION_ANTES_DE_RUTA);
    anexar(&mut v, &ruta);
    anexar_str(&mut v, GUION_TRAS_RUTA);
    anexar(&mut v, &imp);
    anexar_str(&mut v, GUION_FIN);
    texto_de(&v)
}

} // verus!
