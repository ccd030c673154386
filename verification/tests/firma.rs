use juan_vivi::casos::{agregar_caso, BaseCasos};
use juan_vivi::firma::{
    _buscar_datos, caso_desde_registro, entrada_tras_envio, es_nombre_pdf, estado_auto_result,
    get_log_firma, listar_pdfs, pagina_desde_png, paso_tras_ocr, resultado_pagina,
    AccionAuto, AccionVigilancia, DatosEnvio, EntradaLog, EstadoFirma, ResultadoOcr,
};
use juan_vivi::modelos::{Caso, Registro};
use juan_vivi::ocr::DatosOcr;
use juan_vivi::repertorios::{reemplazar_repertorio, BaseRepertorios};
use juan_vivi::tabla::Tabla;
use juan_vivi::vigilador::RUTA_SCANNER;

fn reg(rep: &str, fecha: &str, materia: &str) -> Registro {
    Registro {
        repertorio: rep.to_string(),
        ot: String::new(),
        fecha: fecha.to_string(),
        cliente: String::new(),
        materia: materia.to_string(),
        compareciente: String::new(),
    }
}

fn caso(numero: &str, tipo: &str) -> Caso {
    Caso {
        numero: numero.to_string(),
        anho: "2023".to_string(),
        tipo_contrato: tipo.to_string(),
        fecha_dia: 1,
        fecha_mes: 2,
        fecha_anio: 2023,
    }
}

fn entrada(nombre: &str, estado: &str) -> EntradaLog {
    EntradaLog {
        nombre: nombre.to_string(),
        repertorio: "1-2024".to_string(),
        tipo: "T".to_string(),
        estado: estado.to_string(),
        mensaje: String::new(),
    }
}

fn datos(numero: Option<&str>, anho: Option<&str>, tipo: Option<&str>) -> DatosOcr {
    DatosOcr {
        numero: numero.map(|s| s.to_string()),
        anho: anho.map(|s| s.to_string()),
        protocolizado: None,
        tipo_contrato: tipo.map(|s| s.to_string()),
    }
}

#[test]
fn caso_de_repertorio() {
    let c = caso_desde_registro(&reg("3.090", "2024-03-05", "COMPRAVENTA")).unwrap();
    assert_eq!(
        c,
        Caso {
            numero: "3.090".to_string(),
            anho: "2024".to_string(),
            tipo_contrato: "COMPRAVENTA".to_string(),
            fecha_dia: 5,
            fecha_mes: 3,
            fecha_anio: 2024,
        }
    );
    assert_eq!(caso_desde_registro(&reg("1", "2024-03", "X")), None);
    assert_eq!(caso_desde_registro(&reg("1", "2024-00-05", "X")), None);
    assert_eq!(caso_desde_registro(&reg("1", "2024-3-x", "X")), None);
    assert_eq!(caso_desde_registro(&reg("1", "", "X")), None);
    let c2 = caso_desde_registro(&reg("1", "+2024-1-2-3", "X"));
    assert_eq!(c2, None);
}

#[test]
fn buscar_datos_en_bases() {
    let mut casos: BaseCasos = Tabla::nueva();
    let mut reps: BaseRepertorios = Tabla::nueva();
    agregar_caso(&mut casos, caso("3090", "MANDATO"));
    reemplazar_repertorio(&mut reps, "3.090".to_string(), reg("3.090", "2020-01-01", "OTRO"));
    reemplazar_repertorio(&mut reps, "4.000".to_string(), reg("4.000", "2021-12-31", "COMPRAVENTA"));
    reemplazar_repertorio(&mut reps, "50".to_string(), reg("50", "sin fecha", "X"));
    assert_eq!(_buscar_datos("3.O9O", &casos, &reps), Some(caso("3090", "MANDATO")));
    let c = _buscar_datos("4000", &casos, &reps).unwrap();
    assert_eq!(c.numero, "4.000");
    assert_eq!(c.anho, "2021");
    assert_eq!(c.tipo_contrato, "COMPRAVENTA");
    assert_eq!((c.fecha_dia, c.fecha_mes, c.fecha_anio), (31, 12, 2021));
    assert_eq!(_buscar_datos("50", &casos, &reps), None);
    assert_eq!(_buscar_datos("999", &casos, &reps), None);
}

#[test]
fn entrada_de_envio() {
    let d = DatosEnvio {
        nombre: "a.pdf".to_string(),
        numero: "3090".to_string(),
        anho: "2024".to_string(),
        tipo_contrato: "MANDATO".to_string(),
        fecha_dia: 1,
        fecha_mes: 2,
        fecha_anio: 2024,
    };
    let ok = entrada_tras_envio(&d, Ok(()));
    assert_eq!(ok.nombre, "a.pdf");
    assert_eq!(ok.repertorio, "3090-2024");
    assert_eq!(ok.tipo, "MANDATO");
    assert_eq!(ok.estado, "ok");
    assert_eq!(ok.mensaje, "Enviado correctamente");
    let err = entrada_tras_envio(&d, Err("SIGN+: caido".to_string()));
    assert_eq!(err.estado, "error");
    assert_eq!(err.mensaje, "SIGN+: caido");
}

#[test]
fn decisiones_tras_ocr() {
    let mut casos: BaseCasos = Tabla::nueva();
    agregar_caso(&mut casos, caso("77", "MANDATO"));
    let reps: BaseRepertorios = Tabla::nueva();
    let nombre = "scan.pdf".to_string();

    match paso_tras_ocr(&nombre, ResultadoOcr::FalloOcr("sin pdfium".to_string()), &casos, &reps) {
        AccionAuto::Registrar(l) => {
            assert_eq!(l.nombre, "scan.pdf");
            assert_eq!(l.repertorio, "—");
            assert_eq!(l.tipo, "—");
            assert_eq!(l.estado, "error");
            assert_eq!(l.mensaje, "OCR falló: sin pdfium");
        }
        AccionAuto::Enviar(_) => panic!("no debe enviar"),
    }
    match paso_tras_ocr(&nombre, ResultadoOcr::FalloInterno("panic".to_string()), &casos, &reps) {
        AccionAuto::Registrar(l) => assert_eq!(l.mensaje, "Error interno OCR: panic"),
        AccionAuto::Enviar(_) => panic!("no debe enviar"),
    }
    match paso_tras_ocr(&nombre, ResultadoOcr::Datos(datos(None, Some("2024"), None)), &casos, &reps) {
        AccionAuto::Registrar(l) => assert_eq!(l.mensaje, "OCR: repertorio no detectado"),
        AccionAuto::Enviar(_) => panic!("no debe enviar"),
    }
    match paso_tras_ocr(
        &nombre,
        ResultadoOcr::Datos(datos(Some("55"), Some("2024"), Some("COMPRAVENTA"))),
        &casos,
        &reps,
    ) {
        AccionAuto::Registrar(l) => {
            assert_eq!(l.repertorio, "55-2024");
            assert_eq!(l.tipo, "COMPRAVENTA");
            assert_eq!(l.estado, "sin_datos");
            assert_eq!(
                l.mensaje,
                "Repertorio 55-2024 no está en la base de datos — procesar manualmente"
            );
        }
        AccionAuto::Enviar(_) => panic!("no debe enviar"),
    }
    match paso_tras_ocr(&nombre, ResultadoOcr::Datos(datos(Some("77"), None, None)), &casos, &reps) {
        AccionAuto::Enviar(e) => {
            assert_eq!(
                e,
                DatosEnvio {
                    nombre: "scan.pdf".to_string(),
                    numero: "77".to_string(),
                    anho: "2023".to_string(),
                    tipo_contrato: "MANDATO".to_string(),
                    fecha_dia: 1,
                    fecha_mes: 2,
                    fecha_anio: 2023,
                }
            );
        }
        AccionAuto::Registrar(_) => panic!("debe enviar"),
    }
}

#[test]
fn conteo_del_log() {
    let log = vec![
        entrada("a", "ok"),
        entrada("b", "error"),
        entrada("c", "sin_datos"),
        entrada("d", "procesando"),
        entrada("e", "ok"),
    ];
    let r = estado_auto_result(true, &log);
    assert!(r.activo);
    assert_eq!(r.subidos, 2);
    assert_eq!(r.errores, 2);
    let vacio = estado_auto_result(false, &vec![]);
    assert!(!vacio.activo);
    assert_eq!((vacio.subidos, vacio.errores), (0, 0));
}

#[test]
fn log_invertido() {
    let log = vec![entrada("a", "ok"), entrada("b", "ok"), entrada("c", "ok")];
    let r = get_log_firma(&log);
    let nombres: Vec<&str> = r.iter().map(|e| e.nombre.as_str()).collect();
    assert_eq!(nombres, vec!["c", "b", "a"]);
    assert!(get_log_firma(&vec![]).is_empty());
}

#[test]
fn paginas() {
    let ok = resultado_pagina(2, Ok(("QUJD".to_string(), 7)));
    assert!(ok.ok);
    assert_eq!(ok.data, Some("QUJD".to_string()));
    assert_eq!((ok.pagina, ok.total), (2, 7));
    assert_eq!(ok.error, None);
    let err = resultado_pagina(3, Err("no existe".to_string()));
    assert!(!err.ok);
    assert_eq!(err.data, None);
    assert_eq!((err.pagina, err.total), (3, 0));
    assert_eq!(err.error, Some("no existe".to_string()));
    let png = pagina_desde_png(0, Ok((b"ABC".to_vec(), 4)));
    assert_eq!(png.data, Some("QUJD".to_string()));
    assert_eq!(png.total, 4);
    let png2 = pagina_desde_png(0, Ok((vec![0xff, 0x00], 1)));
    assert_eq!(png2.data, Some("/wA=".to_string()));
    let fallo = pagina_desde_png(5, Err("roto".to_string()));
    assert_eq!(fallo.error, Some("roto".to_string()));
    assert_eq!(fallo.pagina, 5);
}

#[test]
fn nombres_pdf() {
    assert!(es_nombre_pdf("a.pdf"));
    assert!(es_nombre_pdf("b.PdF"));
    assert!(es_nombre_pdf("x.y.pdf"));
    assert!(!es_nombre_pdf(".pdf"));
    assert!(!es_nombre_pdf("pdf"));
    assert!(!es_nombre_pdf("a.pdfx"));
    assert!(!es_nombre_pdf("a.pd"));
    assert!(!es_nombre_pdf("a."));
}

#[test]
fn listado_de_pdfs() {
    let nombres = vec![
        "z.pdf".to_string(),
        "nota.txt".to_string(),
        "A.PDF".to_string(),
        "m.pdf".to_string(),
    ];
    let log = vec![entrada("m.pdf", "ok"), entrada("z.pdf", "error")];
    let carpeta = "C:/scan".to_string();
    let r = listar_pdfs(&carpeta, &nombres, &log);
    let vistos: Vec<(&str, bool)> = r.iter().map(|p| (p.nombre.as_str(), p.ya_enviado)).collect();
    assert_eq!(vistos, vec![("A.PDF", false), ("m.pdf", true), ("z.pdf", false)]);
    assert!(r.iter().all(|p| p.ruta == "C:/scan"));
}

#[test]
fn estado_de_firma() {
    let mut e = EstadoFirma::default();
    assert_eq!(e.carpeta, RUTA_SCANNER);
    assert_eq!(e.get_carpeta_scanner(), "\\\\Desktop-14rq1mp\\escaner riho 550");
    assert!(e.log.is_empty());
    assert!(!e.auto_activo);
    e.set_carpeta_scanner("D:/otra".to_string());
    assert_eq!(e.get_carpeta_scanner(), "D:/otra");
    match e.toggle_auto() {
        AccionVigilancia::Iniciar { carpeta } => assert_eq!(carpeta, "D:/otra"),
        AccionVigilancia::Detener => panic!("debe iniciar"),
    }
    assert!(e.estado_auto().activo);
    e.registrar(entrada("a.pdf", "ok"));
    e.registrar(entrada("b.pdf", "sin_datos"));
    let r = e.estado_auto();
    assert_eq!((r.subidos, r.errores), (1, 1));
    assert!(matches!(e.toggle_auto(), AccionVigilancia::Detener));
    assert!(!e.estado_auto().activo);
}
