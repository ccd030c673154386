//! The scanner folder watcher: which PDFs of a listing are new, and which
//! read errors are reported. The caller lists the folder every few seconds,
//! hands the listing to `paso_vigilador` and acts on what comes back.

use vstd::prelude::*;

use crate::firma::{es_nombre_pdf, es_pdf};
use crate::tabla::Tabla;
use crate::texto::{anexar_str, caracteres, iguales, texto_de, vistas};

verus! {

/// The scanner's shared folder.
pub const RUTA_SCANNER: &'static str = "\\\\Desktop-14rq1mp\\escaner riho 550";

/// Seconds between two listings of the folder.
pub const INTERVALO_SEGUNDOS: u64 = 8;

/// Seconds to wait after a PDF appears, so that its copy can finish.
pub const ESPERA_COPIA_SEGUNDOS: u64 = 12;

/// One entry of a folder listing: its full path and its file name.
pub struct ArchivoCarpeta {
    pub ruta: String,
    pub nombre: String,
}

/// The watcher's state: the paths already seen and the last error reported.
pub struct EstadoVigilador {
    pub vistos: Tabla<()>,
    pub ultimo_error: Option<String>,
}

/// The watcher's state as plain values.
pub struct EstadoVigiladorV {
    pub vistos: Set<Seq<char>>,
    pub ultimo_error: Option<Seq<char>>,
}

/// A text option by its characters.
pub open spec fn texto_opcional(o: Option<String>) -> Option<Seq<char>> {
    match o {
        Some(s) => Some(s@),
        None => None,
    }
}

impl View for EstadoVigilador {
    type V = EstadoVigiladorV;

    open spec fn view(&self) -> EstadoVigiladorV {
        EstadoVigiladorV { vistos: self.vistos@.dom(), ultimo_error: texto_opcional(self.ultimo_error) }
    }
}

/// What one look at the folder asks of the caller: the PDFs to process, and
/// the error to report, if any.
pub struct PasoVigilador {
    pub nuevos: Vec<String>,
    pub error: Option<String>,
}

/// The paths of the PDF entries of a listing that are not in `vistos`, in
/// listing order.
pub open spec fn rutas_nuevas(vistos: Set<Seq<char>>, entradas: Seq<ArchivoCarpeta>) -> Seq<
    Seq<char>,
>
    decreases entradas.len(),
{
    if entradas.len() == 0 {
        Seq::empty()
    } else {
        let previas = rutas_nuevas(vistos, entradas.drop_last());
        let a = entradas.last();
        if es_pdf(a.nombre@) && !vistos.contains(a.ruta@) {
            previas.push(a.ruta@)
        } else {
            previas
        }
    }
}

/// `vistos` with the given paths added.
pub open spec fn agregar_rutas(vistos: Set<Seq<char>>, rutas: Seq<Seq<char>>) -> Set<Seq<char>>
    decreases rutas.len(),
{
    if rutas.len() == 0 {
        vistos
    } else {
        agregar_rutas(vistos, rutas.drop_last()).insert(rutas.last())
    }
}

/// The message of a folder that cannot be read.
pub open spec fn mensaje_error(carpeta: Seq<char>, error: Seq<char>) -> Seq<char> {
    "No se puede leer la carpeta '"@ + carpeta + "': "@ + error
}

/// A listing by plain values.
pub open spec fn listado_v(listado: Result<Vec<ArchivoCarpeta>, String>) -> Result<
    Seq<ArchivoCarpeta>,
    Seq<char>,
> {
    match listado {
        Ok(v) => Ok(v@),
        Err(e) => Err(e@),
    }
}

/// One look at the folder: the next state, the new paths and the error to
/// report. A readable folder clears the last error; an error is reported
/// only when it differs from the last one reported.
pub open spec fn paso_spec(
    carpeta: Seq<char>,
    s: EstadoVigiladorV,
    listado: Result<Seq<ArchivoCarpeta>, Seq<char>>,
) -> (EstadoVigiladorV, Seq<Seq<char>>, Option<Seq<char>>) {
    match listado {
        Ok(entradas) => {
            let nuevos = rutas_nuevas(s.vistos, entradas);
            (
                EstadoVigiladorV { vistos: agregar_rutas(s.vistos, nuevos), ultimo_error: None },
                nuevos,
                None,
            )
        },
        Err(e) => {
            let msg = mensaje_error(carpeta, e);
            if s.ultimo_error == Some(msg) {
                (s, Seq::empty(), None)
            } else {
                (
                    EstadoVigiladorV { vistos: s.vistos, ultimo_error: Some(msg) },
                    Seq::empty(),
                    Some(msg),
                )
            }
        },
    }
}

/// The state before the first look: the PDFs already in the folder count
/// as seen; a folder that cannot be read leaves nothing seen.
pub open spec fn inicial_spec(listado: Option<Seq<ArchivoCarpeta>>) -> EstadoVigiladorV {
    match listado {
        Some(entradas) => EstadoVigiladorV {
            vistos: agregar_rutas(Set::empty(), rutas_nuevas(Set::empty(), entradas)),
            ultimo_error: None,
        },
        None => EstadoVigiladorV { vistos: Set::empty(), ultimo_error: None },
    }
}

fn calcular_nuevos(vistos: &Tabla<()>, entradas: &Vec<ArchivoCarpeta>) -> (r: Vec<String>)
    ensures
        vistas(r@) == rutas_nuevas(vistos@.dom(), entradas@),
{
    let mut r: Vec<String> = Vec::new();
    let mut i: usize = 0;
    while i < entradas.len()
        invariant
            i <= entradas.len(),
            vistas(r@) == rutas_nuevas(vistos@.dom(), entradas@.take(i as int)),
        decreases entradas.len() - i,
    {
        let a = &entradas[i];
        assert(entradas@.take(i + 1).drop_last() == entradas@.take(i as int));
        assert(entradas@.take(i + 1).last() == entradas@[i as int]);
        if es_nombre_pdf(a.nombre.as_str()) && !vistos.contiene(a.ruta.as_str()) {
            let ghost antes = r@;
            r.push(a.ruta.clone());
            assert(vistas(r@) == vistas(antes).push(a.ruta@));
        }
        i = i + 1;
    }
    assert(entradas@.take(entradas.len() as int) == entradas@);
    r
}

fn agregar_todas(vistos: &mut Tabla<()>, rutas: &Vec<String>)
    ensures
        final(vistos)@.dom() == agregar_rutas(old(vistos)@.dom(), vistas(rutas@)),
{
    let mut j: usize = 0;
    while j < rutas.len()
        invariant
            j <= rutas.len(),
            vistos@.dom() == agregar_rutas(old(vistos)@.dom(), vistas(rutas@).take(j as int)),
        decreases rutas.len() - j,
    {
        let ghost antes = vistos@;
        vistos.insertar(rutas[j].clone(), ());
        assert(vistas(rutas@).take(j + 1).drop_last() == vistas(rutas@).take(j as int));
        assert(vistas(rutas@).take(j + 1).last() == rutas@[j as int]@);
        assert(vistos@.dom() =~= antes.dom().insert(rutas@[j as int]@));
        j = j + 1;
    }
    assert(vistas(rutas@).take(rutas.len() as int) == vistas(rutas@));
}

/// The state before the first look, from the folder's first listing
/// (`None` when the folder could not be read).
pub fn estado_inicial(listado: Option<Vec<ArchivoCarpeta>>) -> (r: EstadoVigilador)
    ensures
        r@ == inicial_spec(
            match listado {
                Some(v) => Some(v@),
                None => None,
            },
        ),
{
    let mut vistos: Tabla<()> = Tabla::nueva();
    match listado {
        Some(entradas) => {
            let nuevos = calcular_nuevos(&vistos, &entradas);
            agregar_todas(&mut vistos, &nuevos);
        },
        None => {},
    }
    let r = EstadoVigilador { vistos, ultimo_error: None };
    assert(r@.vistos =~= inicial_spec(
        match listado {
            Some(v) => Some(v@),
            None => None,
        },
    ).vistos);
    r
}

/// One look at the folder (see `paso_spec`): updates the state and says
/// which PDFs to process and which error to report.
pub fn paso_vigilador(
    carpeta: &str,
    estado: &mut EstadoVigilador,
    listado: Result<Vec<ArchivoCarpeta>, String>,
) -> (r: PasoVigilador)
    ensures
        final(estado)@ == paso_spec(carpeta@, old(estado)@, listado_v(listado)).0,
        vistas(r.nuevos@) == paso_spec(carpeta@, old(estado)@, listado_v(listado)).1,
        texto_opcional(r.error) == paso_spec(carpeta@, old(estado)@, listado_v(listado)).2,
{
    match listado {
        Ok(entradas) => {
            estado.ultimo_error = None;
            let nuevos = calcular_nuevos(&estado.vistos, &entradas);
            agregar_todas(&mut estado.vistos, &nuevos);
            PasoVigilador { nuevos, error: None }
        },
        Err(e) => {
            let mut v = caracteres("No se puede leer la carpeta '");
            anexar_str(&mut v, carpeta);
            anexar_str(&mut v, "': ");
            anexar_str(&mut v, e.as_str());
            let repetido = match &estado.ultimo_error {
                Some(u) => iguales(&caracteres(u.as_str()), &v),
                None => false,
            };
            if repetido {
                PasoVigilador { nuevos: Vec::new(), error: None }
            } else {
                let msg = texto_de(&v);
                estado.ultimo_error = Some(texto_de(&v));
                PasoVigilador { nuevos: Vec::new(), error: Some(msg) }
            }
        },
    }
}

// ─── Laws ────────────────────────────────────────────────────────────────────

/// A path is in `vistos` with `rutas` added exactly when it was in `vistos`
/// or is one of `rutas`.
pub proof fn lema_agregar_rutas(vistos: Set<Seq<char>>, rutas: Seq<Seq<char>>, x: Seq<char>)
    ensures
        agregar_rutas(vistos, rutas).contains(x) <==> (vistos.contains(x) || rutas.contains(x)),
    decreases rutas.len(),
{
    if rutas.len() > 0 {
        lema_agregar_rutas(vistos, rutas.drop_last(), x);
        if rutas.drop_last().contains(x) {
            let i = choose|i: int| 0 <= i < rutas.drop_last().len() && rutas.drop_last()[i] == x;
            assert(rutas[i] == x);
        }
        if rutas.contains(x) && x != rutas.last() {
            let i = choose|i: int| 0 <= i < rutas.len() && rutas[i] == x;
            assert(i != rutas.len() - 1);
            assert(rutas.drop_last()[i] == x);
        }
        if x == rutas.last() {
            assert(rutas[rutas.len() - 1] == x);
        }
    }
}

/// The new paths of a listing are exactly the paths of its PDF entries that
/// were not seen before.
pub proof fn ley_nuevos_exactos(vistos: Set<Seq<char>>, entradas: Seq<ArchivoCarpeta>, x: Seq<char>)
    ensures
        rutas_nuevas(vistos, entradas).contains(x) <==> (!vistos.contains(x) && exists|i: int|
            0 <= i < entradas.len() && es_pdf(#[trigger] entradas[i].nombre@) && entradas[i].ruta@
                == x),
    decreases entradas.len(),
{
    if entradas.len() > 0 {
        let previas = entradas.drop_last();
        ley_nuevos_exactos(vistos, previas, x);
        let n = rutas_nuevas(vistos, entradas);
        let np = rutas_nuevas(vistos, previas);
        let a = entradas.last();
        if np.contains(x) {
            let j = choose|j: int| 0 <= j < np.len() && np[j] == x;
            assert(n[j] == x);
            let i = choose|i: int|
                0 <= i < previas.len() && es_pdf(#[trigger] previas[i].nombre@) && previas[i].ruta@ == x;
            assert(entradas[i] == previas[i]);
        }
        if n.contains(x) {
            let j = choose|j: int| 0 <= j < n.len() && n[j] == x;
            if j < np.len() {
                assert(np[j] == x);
            } else {
                assert(entradas[entradas.len() - 1] == a);
            }
        }
        if !vistos.contains(x) && exists|i: int|
            0 <= i < entradas.len() && es_pdf(#[trigger] entradas[i].nombre@) && entradas[i].ruta@ == x {
            let i = choose|i: int|
                0 <= i < entradas.len() && es_pdf(#[trigger] entradas[i].nombre@) && entradas[i].ruta@ == x;
            if i < previas.len() {
                assert(previas[i] == entradas[i]);
                let j = choose|j: int| 0 <= j < np.len() && np[j] == x;
                assert(n[j] == x);
            } else {
                assert(n[n.len() - 1] == x);
            }
        }
    }
}

/// Looking at the folder never forgets a path already seen.
pub proof fn ley_vistos_crecen(
    carpeta: Seq<char>,
    s: EstadoVigiladorV,
    listado: Result<Seq<ArchivoCarpeta>, Seq<char>>,
    x: Seq<char>,
)
    requires
        s.vistos.contains(x),
    ensures
        paso_spec(carpeta, s, listado).0.vistos.contains(x),
{
    if let Ok(entradas) = listado {
        lema_agregar_rutas(s.vistos, rutas_nuevas(s.vistos, entradas), x);
    }
}

/// A PDF handed out once is never handed out again by the next look.
pub proof fn ley_sin_repeticion(
    carpeta: Seq<char>,
    s: EstadoVigiladorV,
    l1: Result<Seq<ArchivoCarpeta>, Seq<char>>,
    l2: Result<Seq<ArchivoCarpeta>, Seq<char>>,
    x: Seq<char>,
)
    requires
        paso_spec(carpeta, s, l1).1.contains(x),
    ensures
        !paso_spec(carpeta, paso_spec(carpeta, s, l1).0, l2).1.contains(x),
{
    let s1 = paso_spec(carpeta, s, l1).0;
    if let Ok(e1) = l1 {
        lema_agregar_rutas(s.vistos, rutas_nuevas(s.vistos, e1), x);
        if let Ok(e2) = l2 {
            ley_nuevos_exactos(s1.vistos, e2, x);
        }
    }
}

/// Two looks at the same listing: the second finds nothing new.
pub proof fn ley_mismo_listado(carpeta: Seq<char>, s: EstadoVigiladorV, entradas: Seq<ArchivoCarpeta>)
    ensures
        paso_spec(carpeta, paso_spec(carpeta, s, Ok(entradas)).0, Ok(entradas)).1.len() == 0,
{
    let s1 = paso_spec(carpeta, s, Ok(entradas)).0;
    let n1 = rutas_nuevas(s.vistos, entradas);
    let n2 = rutas_nuevas(s1.vistos, entradas);
    if n2.len() > 0 {
        let x = n2[0];
        assert(n2.contains(x));
        ley_nuevos_exactos(s1.vistos, entradas, x);
        ley_nuevos_exactos(s.vistos, entradas, x);
        lema_agregar_rutas(s.vistos, n1, x);
    }
}

/// The PDFs already in the folder when watching starts are never handed out.
pub proof fn ley_inicial_sin_nuevos(carpeta: Seq<char>, entradas: Seq<ArchivoCarpeta>)
    ensures
        paso_spec(carpeta, inicial_spec(Some(entradas)), Ok(entradas)).1.len() == 0,
{
    let vacio = EstadoVigiladorV { vistos: Set::empty(), ultimo_error: None };
    assert(paso_spec(carpeta, vacio, Ok(entradas)).0 == inicial_spec(Some(entradas)));
    ley_mismo_listado(carpeta, vacio, entradas);
}

/// The same read error twice in a row is reported once, and the second
/// look changes nothing.
pub proof fn ley_error_una_vez(carpeta: Seq<char>, s: EstadoVigiladorV, e: Seq<char>)
    ensures
        paso_spec(carpeta, paso_spec(carpeta, s, Err(e)).0, Err(e)).2 is None,
        paso_spec(carpeta, paso_spec(carpeta, s, Err(e)).0, Err(e)).0 == paso_spec(
            carpeta,
            s,
            Err(e),
        ).0,
{
}

/// After a successful read, a read error is reported again.
pub proof fn ley_error_tras_lectura(
    carpeta: Seq<char>,
    s: EstadoVigiladorV,
    entradas: Seq<ArchivoCarpeta>,
    e: Seq<char>,
)
    ensures
        paso_spec(carpeta, paso_spec(carpeta, s, Ok(entradas)).0, Err(e)).2 == Some(
            mensaje_error(carpeta, e),
        ),
{
}


// ─── Laws of a run of looks ──────────────────────────────────────────────────

/// The state after looking at the given listings, one after the other.
pub open spec fn estado_tras(
    carpeta: Seq<char>,
    s0: EstadoVigiladorV,
    ls: Seq<Result<Seq<ArchivoCarpeta>, Seq<char>>>,
) -> EstadoVigiladorV
    decreases ls.len(),
{
    if ls.len() == 0 {
        s0
    } else {
        paso_spec(carpeta, estado_tras(carpeta, s0, ls.drop_last()), ls.last()).0
    }
}

/// What look number `k` of a run asks of the caller: the PDFs handed out
/// and the error reported.
pub open spec fn vistazo(
    carpeta: Seq<char>,
    s0: EstadoVigiladorV,
    ls: Seq<Result<Seq<ArchivoCarpeta>, Seq<char>>>,
    k: int,
) -> (Seq<Seq<char>>, Option<Seq<char>>) {
    let p = paso_spec(carpeta, estado_tras(carpeta, s0, ls.take(k)), ls[k]);
    (p.1, p.2)
}

proof fn lema_estado_siguiente(
    carpeta: Seq<char>,
    s0: EstadoVigiladorV,
    ls: Seq<Result<Seq<ArchivoCarpeta>, Seq<char>>>,
    k: int,
)
    requires
        0 <= k < ls.len(),
    ensures
        estado_tras(carpeta, s0, ls.take(k + 1)) == paso_spec(
            carpeta,
            estado_tras(carpeta, s0, ls.take(k)),
            ls[k],
        ).0,
{
    assert(ls.take(k + 1).drop_last() =~= ls.take(k));
    assert(ls.take(k + 1).last() == ls[k]);
}

proof fn lema_vistos_monotonos(
    carpeta: Seq<char>,
    s0: EstadoVigiladorV,
    ls: Seq<Result<Seq<ArchivoCarpeta>, Seq<char>>>,
    i: int,
    j: int,
    x: Seq<char>,
)
    requires
        0 <= i <= j <= ls.len(),
        estado_tras(carpeta, s0, ls.take(i)).vistos.contains(x),
    ensures
        estado_tras(carpeta, s0, ls.take(j)).vistos.contains(x),
    decreases j - i,
{
    if i < j {
        lema_estado_siguiente(carpeta, s0, ls, i);
        ley_vistos_crecen(carpeta, estado_tras(carpeta, s0, ls.take(i)), ls[i], x);
        lema_vistos_monotonos(carpeta, s0, ls, i + 1, j, x);
    }
}

proof fn lema_entregado_visto(
    carpeta: Seq<char>,
    s0: EstadoVigiladorV,
    ls: Seq<Result<Seq<ArchivoCarpeta>, Seq<char>>>,
    k: int,
    x: Seq<char>,
)
    requires
        0 <= k < ls.len(),
        vistazo(carpeta, s0, ls, k).0.contains(x),
    ensures
        estado_tras(carpeta, s0, ls.take(k + 1)).vistos.contains(x),
        !estado_tras(carpeta, s0, ls.take(k)).vistos.contains(x),
{
    lema_estado_siguiente(carpeta, s0, ls, k);
    let s = estado_tras(carpeta, s0, ls.take(k));
    if let Ok(e) = ls[k] {
        lema_agregar_rutas(s.vistos, rutas_nuevas(s.vistos, e), x);
        ley_nuevos_exactos(s.vistos, e, x);
    }
}

proof fn lema_origen_visto(
    carpeta: Seq<char>,
    s0: EstadoVigiladorV,
    ls: Seq<Result<Seq<ArchivoCarpeta>, Seq<char>>>,
    k: int,
    x: Seq<char>,
)
    requires
        0 <= k <= ls.len(),
        estado_tras(carpeta, s0, ls.take(k)).vistos.contains(x),
    ensures
        s0.vistos.contains(x) || exists|k2: int|
            0 <= k2 < k && #[trigger] vistazo(carpeta, s0, ls, k2).0.contains(x),
    decreases k,
{
    if k == 0 {
        assert(ls.take(0) =~= Seq::<Result<Seq<ArchivoCarpeta>, Seq<char>>>::empty());
    } else {
        lema_estado_siguiente(carpeta, s0, ls, k - 1);
        let s = estado_tras(carpeta, s0, ls.take(k - 1));
        match ls[k - 1] {
            Ok(e) => {
                lema_agregar_rutas(s.vistos, rutas_nuevas(s.vistos, e), x);
                if s.vistos.contains(x) {
                    lema_origen_visto(carpeta, s0, ls, k - 1, x);
                } else {
                    assert(vistazo(carpeta, s0, ls, k - 1).0.contains(x));
                }
            },
            Err(_) => {
                lema_origen_visto(carpeta, s0, ls, k - 1, x);
            },
        }
    }
}

/// Over a run of looks, a PDF is handed out at most once: what one look
/// hands out, no later look hands out again.
pub proof fn ley_vigilancia_una_vez(
    carpeta: Seq<char>,
    s0: EstadoVigiladorV,
    ls: Seq<Result<Seq<ArchivoCarpeta>, Seq<char>>>,
    i: int,
    j: int,
    x: Seq<char>,
)
    requires
        0 <= i < j < ls.len(),
        vistazo(carpeta, s0, ls, i).0.contains(x),
    ensures
        !vistazo(carpeta, s0, ls, j).0.contains(x),
{
    lema_entregado_visto(carpeta, s0, ls, i, x);
    lema_vistos_monotonos(carpeta, s0, ls, i + 1, j, x);
    if vistazo(carpeta, s0, ls, j).0.contains(x) {
        lema_entregado_visto(carpeta, s0, ls, j, x);
    }
}

/// The paths of a listing, in order.
pub open spec fn rutas_de(e: Seq<ArchivoCarpeta>) -> Seq<Seq<char>> {
    e.map_values(|a: ArchivoCarpeta| a.ruta@)
}

/// Within one look, a folder listing that names each path once hands each
/// PDF out once.
pub proof fn ley_vistazo_sin_duplicados(vistos: Set<Seq<char>>, e: Seq<ArchivoCarpeta>)
    requires
        rutas_de(e).no_duplicates(),
    ensures
        rutas_nuevas(vistos, e).no_duplicates(),
    decreases e.len(),
{
    if e.len() > 0 {
        let p = e.drop_last();
        assert(rutas_de(p) =~= rutas_de(e).drop_last());
        ley_vistazo_sin_duplicados(vistos, p);
        let a = e.last();
        let np = rutas_nuevas(vistos, p);
        if es_pdf(a.nombre@) && !vistos.contains(a.ruta@) {
            if np.contains(a.ruta@) {
                ley_nuevos_exactos(vistos, p, a.ruta@);
                let i = choose|i: int|
                    0 <= i < p.len() && es_pdf(#[trigger] p[i].nombre@) && p[i].ruta@ == a.ruta@;
                assert(rutas_de(e)[i] == rutas_de(e)[e.len() - 1]);
            }
            assert forall|a1: int, b1: int|
                0 <= a1 < b1 < np.push(a.ruta@).len() implies np.push(a.ruta@)[a1] != np.push(
                a.ruta@,
            )[b1] by {
                if b1 == np.len() {
                    assert(np.push(a.ruta@)[a1] == np[a1]);
                    assert(np.contains(np[a1]));
                } else {
                    assert(np[a1] != np[b1]);
                }
            }
        }
    }
}

/// The PDFs already in the folder when watching starts are never handed out
/// by any look of the run.
pub proof fn ley_vigilancia_inicial(
    carpeta: Seq<char>,
    e0: Seq<ArchivoCarpeta>,
    ls: Seq<Result<Seq<ArchivoCarpeta>, Seq<char>>>,
    k: int,
    x: Seq<char>,
)
    requires
        0 <= k < ls.len(),
        exists|i: int| 0 <= i < e0.len() && es_pdf(#[trigger] e0[i].nombre@) && e0[i].ruta@ == x,
    ensures
        !vistazo(carpeta, inicial_spec(Some(e0)), ls, k).0.contains(x),
{
    let s0 = inicial_spec(Some(e0));
    ley_nuevos_exactos(Set::empty(), e0, x);
    lema_agregar_rutas(Set::empty(), rutas_nuevas(Set::empty(), e0), x);
    assert(ls.take(0) =~= Seq::<Result<Seq<ArchivoCarpeta>, Seq<char>>>::empty());
    lema_vistos_monotonos(carpeta, s0, ls, 0, k, x);
    if vistazo(carpeta, s0, ls, k).0.contains(x) {
        lema_entregado_visto(carpeta, s0, ls, k, x);
    }
}

/// Every PDF that a look lists and that was not seen at the start is handed
/// out by that look or an earlier one.
pub proof fn ley_vigilancia_completa(
    carpeta: Seq<char>,
    s0: EstadoVigiladorV,
    ls: Seq<Result<Seq<ArchivoCarpeta>, Seq<char>>>,
    k: int,
    i: int,
)
    requires
        0 <= k < ls.len(),
        ls[k] is Ok,
        0 <= i < ls[k]->Ok_0.len(),
        es_pdf(ls[k]->Ok_0[i].nombre@),
        !s0.vistos.contains(ls[k]->Ok_0[i].ruta@),
    ensures
        exists|k2: int|
            0 <= k2 <= k && #[trigger] vistazo(carpeta, s0, ls, k2).0.contains(
                ls[k]->Ok_0[i].ruta@,
            ),
{
    let e = ls[k]->Ok_0;
    let x = e[i].ruta@;
    let s = estado_tras(carpeta, s0, ls.take(k));
    if s.vistos.contains(x) {
        lema_origen_visto(carpeta, s0, ls, k, x);
        let k2 = choose|k2: int| 0 <= k2 < k && #[trigger] vistazo(carpeta, s0, ls, k2).0.contains(x);
        assert(vistazo(carpeta, s0, ls, k2).0.contains(x));
    } else {
        ley_nuevos_exactos(s.vistos, e, x);
        assert(vistazo(carpeta, s0, ls, k).0.contains(x));
    }
}

/// A look reports an error only when the folder could not be read, and the
/// error is the message for that failure.
pub proof fn ley_vigilancia_error_de_lectura(
    carpeta: Seq<char>,
    s0: EstadoVigiladorV,
    ls: Seq<Result<Seq<ArchivoCarpeta>, Seq<char>>>,
    k: int,
)
    requires
        0 <= k < ls.len(),
        vistazo(carpeta, s0, ls, k).1 is Some,
    ensures
        ls[k] matches Err(e) && vistazo(carpeta, s0, ls, k).1 == Some(mensaje_error(carpeta, e)),
{
}

proof fn lema_error_persiste(
    carpeta: Seq<char>,
    s0: EstadoVigiladorV,
    ls: Seq<Result<Seq<ArchivoCarpeta>, Seq<char>>>,
    i: int,
    k: int,
    m: Seq<char>,
)
    requires
        0 <= i < k <= ls.len(),
        vistazo(carpeta, s0, ls, i).1 == Some(m),
        forall|k2: int|
            i < k2 < k ==> (#[trigger] ls[k2] matches Err(e) && mensaje_error(carpeta, e) == m),
    ensures
        estado_tras(carpeta, s0, ls.take(k)).ultimo_error == Some(m),
    decreases k - i,
{
    if k == i + 1 {
        lema_estado_siguiente(carpeta, s0, ls, i);
    } else {
        lema_error_persiste(carpeta, s0, ls, i, k - 1, m);
        lema_estado_siguiente(carpeta, s0, ls, k - 1);
        assert(ls[k - 1] matches Err(e) && mensaje_error(carpeta, e) == m);
    }
}

/// The same error is reported again only after a look in between read the
/// folder or failed with another message.
pub proof fn ley_vigilancia_error_una_vez(
    carpeta: Seq<char>,
    s0: EstadoVigiladorV,
    ls: Seq<Result<Seq<ArchivoCarpeta>, Seq<char>>>,
    i: int,
    j: int,
    m: Seq<char>,
)
    requires
        0 <= i < j < ls.len(),
        vistazo(carpeta, s0, ls, i).1 == Some(m),
        vistazo(carpeta, s0, ls, j).1 == Some(m),
    ensures
        exists|k: int|
            i < k < j && (#[trigger] ls[k] is Ok || (ls[k] matches Err(e) && mensaje_error(carpeta, e)
                != m)),
{
    if !exists|k: int|
        i < k < j && (#[trigger] ls[k] is Ok || (ls[k] matches Err(e) && mensaje_error(carpeta, e)
            != m)) {
        assert forall|k2: int| i < k2 < j implies (#[trigger] ls[k2] matches Err(e)
            && mensaje_error(carpeta, e) == m) by {
            if !(ls[k2] is Ok || (ls[k2] matches Err(e) && mensaje_error(carpeta, e) != m)) {
            }
        }
        lema_error_persiste(carpeta, s0, ls, i, j, m);
        assert(false);
    }
}

/// Whether `x` is the path of a PDF of the watcher's first listing (none
/// when the folder could not be read).
pub open spec fn pdf_inicial(l0: Option<Seq<ArchivoCarpeta>>, x: Seq<char>) -> bool {
    match l0 {
        Some(e0) => exists|i: int|
            0 <= i < e0.len() && es_pdf(#[trigger] e0[i].nombre@) && e0[i].ruta@ == x,
        None => false,
    }
}

proof fn lema_vistos_iniciales(l0: Option<Seq<ArchivoCarpeta>>, x: Seq<char>)
    ensures
        inicial_spec(l0).vistos.contains(x) <==> pdf_inicial(l0, x),
{
    if let Some(e0) = l0 {
        ley_nuevos_exactos(Set::empty(), e0, x);
        lema_agregar_rutas(Set::empty(), rutas_nuevas(Set::empty(), e0), x);
    }
}

/// The watcher over a whole run, from its first listing `l0` and the
/// listings of its later looks `ls`: no PDF of the first listing is ever
/// handed out; no PDF is handed out twice, neither by two looks nor (when a
/// listing names each path once) within one look; and every PDF that a look
/// lists and that was not in the first listing is handed out by that look or
/// an earlier one.
pub proof fn ley_vigilancia_corrida(
    carpeta: Seq<char>,
    l0: Option<Seq<ArchivoCarpeta>>,
    ls: Seq<Result<Seq<ArchivoCarpeta>, Seq<char>>>,
)
    ensures
        forall|k: int, x: Seq<char>|
            0 <= k < ls.len() && #[trigger] vistazo(carpeta, inicial_spec(l0), ls, k).0.contains(x)
                ==> !pdf_inicial(l0, x),
        forall|i: int, j: int, x: Seq<char>|
            0 <= i < j < ls.len() && #[trigger] vistazo(carpeta, inicial_spec(l0), ls, i).0.contains(
                x,
            ) ==> !#[trigger] vistazo(carpeta, inicial_spec(l0), ls, j).0.contains(x),
        forall|k: int|
            0 <= k < ls.len() && ls[k] is Ok && rutas_de(ls[k]->Ok_0).no_duplicates() ==> (
            #[trigger] vistazo(carpeta, inicial_spec(l0), ls, k)).0.no_duplicates(),
        forall|k: int, i: int|
            0 <= k < ls.len() && ls[k] is Ok && 0 <= i < ls[k]->Ok_0.len() && es_pdf(
                (#[trigger] ls[k]->Ok_0[i]).nombre@,
            ) && !pdf_inicial(l0, ls[k]->Ok_0[i].ruta@) ==> exists|k2: int|
                0 <= k2 <= k && #[trigger] vistazo(carpeta, inicial_spec(l0), ls, k2).0.contains(
                    ls[k]->Ok_0[i].ruta@,
                ),
{
    let s0 = inicial_spec(l0);
    assert forall|k: int, x: Seq<char>|
        0 <= k < ls.len() && #[trigger] vistazo(carpeta, s0, ls, k).0.contains(x) implies !pdf_inicial(
        l0,
        x,
    ) by {
        lema_vistos_iniciales(l0, x);
        if s0.vistos.contains(x) {
            assert(ls.take(0) =~= Seq::<Result<Seq<ArchivoCarpeta>, Seq<char>>>::empty());
            lema_vistos_monotonos(carpeta, s0, ls, 0, k, x);
            lema_entregado_visto(carpeta, s0, ls, k, x);
        }
    }
    assert forall|i: int, j: int, x: Seq<char>|
        0 <= i < j < ls.len() && #[trigger] vistazo(carpeta, s0, ls, i).0.contains(
            x,
        ) implies !#[trigger] vistazo(carpeta, s0, ls, j).0.contains(x) by {
        ley_vigilancia_una_vez(carpeta, s0, ls, i, j, x);
    }
    assert forall|k: int|
        0 <= k < ls.len() && ls[k] is Ok && rutas_de(ls[k]->Ok_0).no_duplicates() implies (
        #[trigger] vistazo(carpeta, s0, ls, k)).0.no_duplicates() by {
        ley_vistazo_sin_duplicados(estado_tras(carpeta, s0, ls.take(k)).vistos, ls[k]->Ok_0);
    }
    assert forall|k: int, i: int|
        0 <= k < ls.len() && ls[k] is Ok && 0 <= i < ls[k]->Ok_0.len() && es_pdf(
            (#[trigger] ls[k]->Ok_0[i]).nombre@,
        ) && !pdf_inicial(l0, ls[k]->Ok_0[i].ruta@) implies exists|k2: int|
        0 <= k2 <= k && #[trigger] vistazo(carpeta, s0, ls, k2).0.contains(ls[k]->Ok_0[i].ruta@) by {
        lema_vistos_iniciales(l0, ls[k]->Ok_0[i].ruta@);
        ley_vigilancia_completa(carpeta, s0, ls, k, i);
    }
}

} // verus!
