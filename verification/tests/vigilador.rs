use juan_vivi::almacenamiento::{
    dir_datos, dir_datos_desde, enviados_desde_texto, marcar_en_lista, marcar_enviado_en_texto,
    ruta_archivo, ruta_archivo_desde, ENVIADOS_FILE,
};
use juan_vivi::vigilador::{estado_inicial, paso_vigilador, ArchivoCarpeta};

fn a(ruta: &str) -> ArchivoCarpeta {
    let nombre = ruta.rsplit('/').next().unwrap().to_string();
    ArchivoCarpeta { ruta: ruta.to_string(), nombre }
}

#[test]
fn inicial_cuenta_los_presentes() {
    let mut e = estado_inicial(Some(vec![a("/s/a.pdf"), a("/s/b.txt")]));
    assert!(e.vistos.contiene("/s/a.pdf"));
    assert!(!e.vistos.contiene("/s/b.txt"));
    assert_eq!(e.ultimo_error, None);
    let p = paso_vigilador("/s", &mut e, Ok(vec![a("/s/a.pdf"), a("/s/b.txt")]));
    assert!(p.nuevos.is_empty());
    assert_eq!(p.error, None);
}

#[test]
fn inicial_sin_carpeta() {
    let e = estado_inicial(None);
    assert_eq!(e.vistos.len(), 0);
    assert_eq!(e.ultimo_error, None);
}

#[test]
fn nuevos_una_sola_vez() {
    let mut e = estado_inicial(Some(vec![]));
    let listado = vec![a("/s/1.pdf"), a("/s/2.PDF"), a("/s/x.doc"), a("/s/.pdf")];
    let p = paso_vigilador("/s", &mut e, Ok(listado));
    assert_eq!(p.nuevos, vec!["/s/1.pdf".to_string(), "/s/2.PDF".to_string()]);
    let p2 = paso_vigilador("/s", &mut e, Ok(vec![a("/s/1.pdf"), a("/s/2.PDF"), a("/s/3.pdf")]));
    assert_eq!(p2.nuevos, vec!["/s/3.pdf".to_string()]);
    let p3 = paso_vigilador("/s", &mut e, Ok(vec![a("/s/3.pdf")]));
    assert!(p3.nuevos.is_empty());
}

#[test]
fn errores_sin_repetir() {
    let mut e = estado_inicial(None);
    let p = paso_vigilador("//srv/scan", &mut e, Err("acceso denegado".to_string()));
    assert!(p.nuevos.is_empty());
    assert_eq!(
        p.error,
        Some("No se puede leer la carpeta '//srv/scan': acceso denegado".to_string())
    );
    let p2 = paso_vigilador("//srv/scan", &mut e, Err("acceso denegado".to_string()));
    assert_eq!(p2.error, None);
    let p3 = paso_vigilador("//srv/scan", &mut e, Err("otro".to_string()));
    assert_eq!(p3.error, Some("No se puede leer la carpeta '//srv/scan': otro".to_string()));
    let p4 = paso_vigilador("//srv/scan", &mut e, Ok(vec![]));
    assert_eq!(p4.error, None);
    assert_eq!(e.ultimo_error, None);
    let p5 = paso_vigilador("//srv/scan", &mut e, Err("otro".to_string()));
    assert!(p5.error.is_some());
}

#[test]
fn rutas_de_datos() {
    let d = dir_datos();
    assert!(d.ends_with("JUAN-VIVI"));
    let r = ruta_archivo(ENVIADOS_FILE);
    assert!(r.starts_with(&d));
    assert!(r.ends_with("enviados.json"));
    assert!(r.ends_with(&format!("JUAN-VIVI{}enviados.json", std::path::MAIN_SEPARATOR)));
    assert_eq!(r.len(), d.len() + 1 + "enviados.json".len());
}

#[test]
fn lista_de_enviados() {
    let lista = vec!["a.pdf".to_string(), "b.pdf".to_string(), "a.pdf".to_string()];
    let r = marcar_en_lista(&lista, "c.pdf");
    assert_eq!(r, vec!["a.pdf".to_string(), "b.pdf".to_string(), "c.pdf".to_string()]);
    let r2 = marcar_en_lista(&r, "b.pdf");
    assert_eq!(r2, r);
    assert_eq!(marcar_en_lista(&vec![], "x"), vec!["x".to_string()]);
}

#[test]
fn datos_desde_una_base() {
    let sep = std::path::MAIN_SEPARATOR;
    assert_eq!(dir_datos_desde(Some("/home/u/.local/share".to_string())), format!("/home/u/.local/share{}JUAN-VIVI", sep));
    assert_eq!(dir_datos_desde(None), format!(".{}JUAN-VIVI", sep));
    assert_eq!(
        ruta_archivo_desde(Some("/d".to_string()), "casos.json"),
        format!("/d{}JUAN-VIVI{}casos.json", sep, sep)
    );
    assert_eq!(ruta_archivo_desde(None, "x.json"), format!(".{}JUAN-VIVI{}x.json", sep, sep));
}

#[test]
fn corrida_de_vistazos() {
    let mut e = estado_inicial(Some(vec![a("/s/viejo.pdf")]));
    let mut entregados: Vec<String> = Vec::new();
    let mut errores: Vec<String> = Vec::new();
    let listados: Vec<Result<Vec<ArchivoCarpeta>, String>> = vec![
        Ok(vec![a("/s/viejo.pdf"), a("/s/n1.pdf")]),
        Err("A".to_string()),
        Err("A".to_string()),
        Err("B".to_string()),
        Err("A".to_string()),
        Ok(vec![a("/s/viejo.pdf"), a("/s/n1.pdf"), a("/s/n2.pdf")]),
        Err("A".to_string()),
    ];
    for l in listados {
        let p = paso_vigilador("/s", &mut e, l);
        entregados.extend(p.nuevos);
        errores.extend(p.error);
    }
    assert_eq!(entregados, vec!["/s/n1.pdf".to_string(), "/s/n2.pdf".to_string()]);
    let msg = |x: &str| format!("No se puede leer la carpeta '/s': {}", x);
    assert_eq!(errores, vec![msg("A"), msg("B"), msg("A"), msg("A")]);
}

#[test]
fn archivo_de_enviados() {
    assert_eq!(enviados_desde_texto("[\"a.pdf\",\"b.pdf\"]"), vec!["a.pdf".to_string(), "b.pdf".to_string()]);
    assert!(enviados_desde_texto("").is_empty());
    assert!(enviados_desde_texto("{\"x\":1}").is_empty());
    assert_eq!(marcar_enviado_en_texto("[\"a.pdf\"]", "b.pdf"), "[\"a.pdf\",\"b.pdf\"]");
    assert_eq!(marcar_enviado_en_texto("[\"a.pdf\",\"a.pdf\"]", "a.pdf"), "[\"a.pdf\"]");
    assert_eq!(marcar_enviado_en_texto("basura", "c.pdf"), "[\"c.pdf\"]");
}
